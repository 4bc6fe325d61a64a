//! The integrity verifier.
//!
//! A set of collected records is coherent when no two of them share a pid
//! and at most one of them has a parent pid that is absent from the set.

use vstd::prelude::*;
use std::collections::HashSet;
use crate::error::{BuildError, BuildErrorView};
use crate::process::{Process, ProcessView};

verus! {

/// Some record among `ps` has this pid.
pub open spec fn pid_present(ps: Seq<ProcessView>, pid: nat) -> bool {
    exists|j: int| 0 <= j < ps.len() && (#[trigger] ps[j]).pid == pid
}

/// Two records among `ps` share a pid.
pub open spec fn has_duplicate_identity(ps: Seq<ProcessView>) -> bool {
    exists|i: int, j: int| 0 <= i < j < ps.len() && (#[trigger] ps[i]).pid == (#[trigger] ps[j]).pid
}

/// The record at `i` has no parent among `ps`.
pub open spec fn is_root(ps: Seq<ProcessView>, i: int) -> bool {
    !pid_present(ps, ps[i].ppid)
}

/// How many of the first `n` records of `ps` are roots.
pub open spec fn roots_among(ps: Seq<ProcessView>, n: nat) -> nat
    decreases n,
{
    if n == 0 {
        0
    } else {
        roots_among(ps, (n - 1) as nat) + if is_root(ps, n - 1) {
            1nat
        } else {
            0nat
        }
    }
}

/// How many records of `ps` are roots.
pub open spec fn root_count(ps: Seq<ProcessView>) -> nat {
    roots_among(ps, ps.len())
}

/// No two different records of `ps` are both roots.
pub open spec fn at_most_one_root(ps: Seq<ProcessView>) -> bool {
    forall|i: int, j: int|
        0 <= i < ps.len() && 0 <= j < ps.len() && #[trigger] is_root(ps, i) && #[trigger] is_root(
            ps,
            j,
        ) ==> i == j
}

/// The records describe one process tree: no pid occurs twice, and at most
/// one record lacks a parent among them.
pub open spec fn coherent(ps: Seq<ProcessView>) -> bool {
    !has_duplicate_identity(ps) && at_most_one_root(ps)
}

/// What the verifier answers for `ps`: a duplicate pid is reported before a
/// missing process.
pub open spec fn integrity_verdict(ps: Seq<ProcessView>) -> Result<(), BuildErrorView> {
    if has_duplicate_identity(ps) {
        Err(BuildErrorView::DuplicateProcessIdentity)
    } else if !at_most_one_root(ps) {
        Err(BuildErrorView::ProcessTreeIncomplete)
    } else {
        Ok(())
    }
}

/// Counting roots and comparing them pairwise agree: among the first `n`
/// records there is none exactly when the count is zero, and no two
/// different ones exactly when the count is at most one.
pub proof fn lemma_roots_among(ps: Seq<ProcessView>, n: nat)
    requires
        n <= ps.len(),
    ensures
        roots_among(ps, n) <= n,
        roots_among(ps, n) == 0 <==> (forall|i: int| 0 <= i < n ==> !#[trigger] is_root(ps, i)),
        roots_among(ps, n) <= 1 <==> (forall|i: int, j: int|
            0 <= i < n && 0 <= j < n && #[trigger] is_root(ps, i) && #[trigger] is_root(ps, j)
                ==> i == j),
    decreases n,
{
    if n > 0 {
        let m = (n - 1) as nat;
        lemma_roots_among(ps, m);
        if is_root(ps, m as int) {
            if roots_among(ps, m) > 0 {
                let k = choose|k: int| 0 <= k < m && is_root(ps, k);
                assert(is_root(ps, k) && is_root(ps, m as int) && k != m);
            }
        } else {
            if roots_among(ps, m) > 1 {
                let (a, b) = choose|a: int, b: int|
                    0 <= a < m && 0 <= b < m && #[trigger] is_root(ps, a) && #[trigger] is_root(
                        ps,
                        b,
                    ) && a != b;
                assert(is_root(ps, a) && is_root(ps, b) && a != b);
            }
        }
    }
}

/// A set of records has at most one root exactly when its root count is at
/// most one.
pub proof fn lemma_root_count(ps: Seq<ProcessView>)
    ensures
        at_most_one_root(ps) <==> root_count(ps) <= 1,
        root_count(ps) <= ps.len(),
{
    lemma_roots_among(ps, ps.len());
}

/// The empty set of records is coherent.
pub proof fn lemma_empty_coherent()
    ensures
        coherent(Seq::<ProcessView>::empty()),
{
}

/// A single record is coherent, whatever its parent.
pub proof fn lemma_single_coherent(p: ProcessView)
    ensures
        coherent(seq![p]),
{
}

/// `qs` holds the records of `ps` in another order: the record at `i` in
/// `ps` is the one at `to[i]` in `qs`, and `from` leads back.
pub open spec fn reordered(
    ps: Seq<ProcessView>,
    qs: Seq<ProcessView>,
    to: Seq<int>,
    from: Seq<int>,
) -> bool {
    &&& qs.len() == ps.len()
    &&& to.len() == ps.len()
    &&& from.len() == ps.len()
    &&& forall|i: int|
        0 <= i < ps.len() ==> 0 <= #[trigger] to[i] < ps.len() && from[to[i]] == i && qs[to[i]]
            == ps[i]
    &&& forall|j: int|
        0 <= j < ps.len() ==> 0 <= #[trigger] from[j] < ps.len() && to[from[j]] == j
}

/// What another order of the records keeps: a pid that is present stays
/// present, and a duplicate stays a duplicate.
proof fn lemma_reordered_keeps(
    ps: Seq<ProcessView>,
    qs: Seq<ProcessView>,
    to: Seq<int>,
    from: Seq<int>,
)
    requires
        reordered(ps, qs, to, from),
    ensures
        forall|pid: nat| pid_present(ps, pid) ==> pid_present(qs, pid),
        has_duplicate_identity(ps) ==> has_duplicate_identity(qs),
{
    assert forall|pid: nat| pid_present(ps, pid) implies pid_present(qs, pid) by {
        let j = choose|j: int| 0 <= j < ps.len() && (#[trigger] ps[j]).pid == pid;
        assert(qs[to[j]].pid == pid);
    }
    if has_duplicate_identity(ps) {
        let (i, j) = choose|i: int, j: int|
            0 <= i < j < ps.len() && (#[trigger] ps[i]).pid == (#[trigger] ps[j]).pid;
        let a = to[i];
        let b = to[j];
        assert(from[a] == i && from[b] == j);
        if a < b {
            assert(qs[a].pid == qs[b].pid);
        } else {
            assert(qs[b].pid == qs[a].pid);
        }
    }
}

/// The order of the records is immaterial: the verifier gives the same
/// answer for the same records in any order.
pub proof fn lemma_order_is_immaterial(
    ps: Seq<ProcessView>,
    qs: Seq<ProcessView>,
    to: Seq<int>,
    from: Seq<int>,
)
    requires
        reordered(ps, qs, to, from),
    ensures
        coherent(ps) == coherent(qs),
        integrity_verdict(ps) == integrity_verdict(qs),
{
    assert(reordered(qs, ps, from, to)) by {
        assert forall|j: int| 0 <= j < qs.len() implies 0 <= #[trigger] from[j] < qs.len()
            && to[from[j]] == j && ps[from[j]] == qs[j] by {
            assert(qs[to[from[j]]] == ps[from[j]]);
        }
    }
    lemma_reordered_keeps(ps, qs, to, from);
    lemma_reordered_keeps(qs, ps, from, to);
    assert forall|i: int| 0 <= i < ps.len() implies is_root(ps, i) == is_root(qs, to[i]) by {
        assert(qs[to[i]].ppid == ps[i].ppid);
    }
    if !at_most_one_root(ps) {
        let (i, j) = choose|i: int, j: int|
            0 <= i < ps.len() && 0 <= j < ps.len() && #[trigger] is_root(ps, i)
                && #[trigger] is_root(ps, j) && i != j;
        assert(from[to[i]] == i && from[to[j]] == j);
        assert(is_root(qs, to[i]) && is_root(qs, to[j]) && to[i] != to[j]);
    }
    if !at_most_one_root(qs) {
        let (a, b) = choose|a: int, b: int|
            0 <= a < qs.len() && 0 <= b < qs.len() && #[trigger] is_root(qs, a)
                && #[trigger] is_root(qs, b) && a != b;
        assert(to[from[a]] == a && to[from[b]] == b);
        assert(is_root(ps, from[a]) && is_root(ps, from[b]) && from[a] != from[b]);
    }
}

/// Decides whether the records describe one process tree.
///
/// Fails with `DuplicateProcessIdentity` exactly when two records share a
/// pid; otherwise with `ProcessTreeIncomplete` exactly when two different
/// records have no parent among the records.
pub fn verify_integrity(processes: &Vec<Process>) -> (r: Result<(), BuildError>)
    ensures
        r is Ok <==> coherent(processes.deep_view()),
        match r {
            Ok(()) => integrity_verdict(processes.deep_view()) == Ok::<(), BuildErrorView>(()),
            Err(e) => integrity_verdict(processes.deep_view()) == Err::<(), BuildErrorView>(e@),
        },
{
    broadcast use vstd::std_specs::hash::group_hash_axioms;

    let ghost ps = processes.deep_view();
    let n: usize = processes.len();
    let mut pids: HashSet<usize> = HashSet::new();
    let mut i: usize = 0;
    while i < n
        invariant
            n == processes.len(),
            ps == processes.deep_view(),
            0 <= i <= n,
            forall|p: usize| pids@.contains(p) <==> pid_present(ps.take(i as int), p as nat),
            !has_duplicate_identity(ps.take(i as int)),
        decreases n - i,
    {
        let pid: usize = processes[i].pid;
        let fresh: bool = pids.insert(pid);
        proof {
            let before = ps.take(i as int);
            let after = ps.take(i + 1);
            assert(after[i as int] == ps[i as int]);
            assert(ps[i as int].pid == pid as nat);
            assert forall|j: int| 0 <= j < i implies before[j] == after[j] by {}
            if !fresh {
                let j = choose|j: int| 0 <= j < before.len() && (#[trigger] before[j]).pid == pid;
                assert(ps[j].pid == ps[i as int].pid);
                assert(has_duplicate_identity(ps));
            } else {
                if has_duplicate_identity(after) {
                    let (a, b) = choose|a: int, b: int|
                        0 <= a < b < after.len() && (#[trigger] after[a]).pid == (
                        #[trigger] after[b]).pid;
                    if b < i {
                        assert(before[a].pid == before[b].pid);
                    } else {
                        assert(before[a].pid == pid as nat);
                    }
                }
                assert forall|p: usize| pids@.contains(p) <==> pid_present(
                    after,
                    p as nat,
                ) by {
                    if pid_present(before, p as nat) {
                        let j = choose|j: int|
                            0 <= j < before.len() && (#[trigger] before[j]).pid == p as nat;
                        assert(after[j].pid == p as nat);
                    }
                    if p == pid {
                        assert(after[i as int].pid == p as nat);
                    }
                    if pid_present(after, p as nat) {
                        let j = choose|j: int|
                            0 <= j < after.len() && (#[trigger] after[j]).pid == p as nat;
                        if j < i {
                            assert(before[j].pid == p as nat);
                        }
                    }
                }
            }
        }
        if !fresh {
            return Err(BuildError::DuplicateProcessIdentity);
        }
        i += 1;
    }
    assert(ps.take(n as int) =~= ps);
    let mut roots: usize = 0;
    let mut k: usize = 0;
    while k < n
        invariant
            n == processes.len(),
            ps == processes.deep_view(),
            0 <= k <= n,
            forall|p: usize| pids@.contains(p) <==> pid_present(ps, p as nat),
            roots as nat == roots_among(ps, k as nat),
            roots <= k,
        decreases n - k,
    {
        let ppid: usize = processes[k].ppid;
        assert(ps[k as int].ppid == ppid as nat);
        if !pids.contains(&ppid) {
            roots += 1;
        }
        k += 1;
    }
    proof {
        lemma_root_count(ps);
    }
    if roots > 1 {
        Err(BuildError::ProcessTreeIncomplete)
    } else {
        Ok(())
    }
}

} // verus!
