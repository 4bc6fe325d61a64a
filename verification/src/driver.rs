//! The build driver's decisions, from the launch of the traced command to
//! the validated aggregate.
//!
//! The driver itself neither spawns nor reads: it says what to launch, and is
//! told what happened. A [`Driver`] stands for a launched build. Only a clean
//! exit turns it into a [`Collection`], which takes what became of the
//! scratch directory's entries one by one and says after each whether to
//! read on, and only a complete collection of coherent records turns into a
//! [`Build`].

use vstd::prelude::*;
use crate::aggregate::{Build, BuildView};
use crate::error::{BuildError, BuildErrorView};
use crate::integrity::integrity_verdict;
use crate::process::{Process, ProcessView};

verus! {

/// The name of the environment variable that tells the shim where to put its
/// records. Its presence alone activates the shim.
pub fn output_dir_variable() -> (r: &'static str)
    ensures
        r@ == "TRACKER_OUTPUT_PATH"@,
{
    "TRACKER_OUTPUT_PATH"
}

/// The name of the environment variable that has the loader inject the shim
/// into a process and, by inheritance, into its descendants.
pub fn preload_variable() -> (r: &'static str)
    ensures
        r@ == "LD_PRELOAD"@,
{
    "LD_PRELOAD"
}

/// The file name of the shim library.
pub fn shim_library_name() -> (r: &'static str)
    ensures
        r@ == "libpreload.so"@,
{
    "libpreload.so"
}

/// What to spawn: a program, its arguments, and the variables to add to its
/// environment. Its output streams are to be passed through.
#[derive(Debug, Clone, PartialEq, Eq)]
pub struct Launch {
    pub program: String,
    pub args: Vec<String>,
    pub env: Vec<(String, String)>,
}

/// The model of a [`Launch`].
pub struct LaunchView {
    pub program: Seq<char>,
    pub args: Seq<Seq<char>>,
    pub env: Seq<(Seq<char>, Seq<char>)>,
}

impl View for Launch {
    type V = LaunchView;

    open spec fn view(&self) -> LaunchView {
        LaunchView {
            program: self.program@,
            args: self.args.deep_view(),
            env: self.env.deep_view(),
        }
    }
}

/// How `command` is launched with tracing: through the command interpreter,
/// with the shim injected and the scratch directory named to it.
pub open spec fn traced_launch(
    command: Seq<char>,
    scratch_dir: Seq<char>,
    shim_library: Seq<char>,
) -> LaunchView {
    LaunchView {
        program: "/bin/bash"@,
        args: seq!["-c"@, command],
        env: seq![("LD_PRELOAD"@, shim_library), ("TRACKER_OUTPUT_PATH"@, scratch_dir)],
    }
}

/// What the root process's end means: `Ok` for exit code 0, the code for any
/// other, a signal where there is no code.
pub open spec fn exit_meaning(code: Option<i32>) -> Result<(), BuildErrorView> {
    match code {
        Some(c) => if c == 0 {
            Ok(())
        } else {
            Err(BuildErrorView::BuildTerminatedWithCode(c as int))
        },
        None => Err(BuildErrorView::BuildTerminatedBySignal),
    }
}

/// Maps the root process's exit code, if it has one, to success or failure.
pub fn exit_verdict(code: Option<i32>) -> (r: Result<(), BuildError>)
    ensures
        match r {
            Ok(()) => exit_meaning(code) == Ok::<(), BuildErrorView>(()),
            Err(e) => exit_meaning(code) == Err::<(), BuildErrorView>(e@),
        },
{
    match code {
        Some(c) => {
            if c == 0 {
                Ok(())
            } else {
                Err(BuildError::BuildTerminatedWithCode(c))
            }
        },
        None => Err(BuildError::BuildTerminatedBySignal),
    }
}

/// What became of one entry of the scratch directory.
#[derive(Debug, Clone, PartialEq, Eq)]
pub enum EntryOutcome {
    /// The entry was read and parsed as this record.
    Parsed(Process),
    /// The entry at `path` could not be read, or did not parse.
    Failed { path: String, cause: String },
}

/// The model of an [`EntryOutcome`].
pub enum EntryOutcomeView {
    Parsed(ProcessView),
    Failed { path: Seq<char>, cause: Seq<char> },
}

impl View for EntryOutcome {
    type V = EntryOutcomeView;

    open spec fn view(&self) -> EntryOutcomeView {
        match *self {
            EntryOutcome::Parsed(p) => EntryOutcomeView::Parsed(p@),
            EntryOutcome::Failed { path, cause } => EntryOutcomeView::Failed {
                path: path@,
                cause: cause@,
            },
        }
    }
}

impl DeepView for EntryOutcome {
    type V = EntryOutcomeView;

    open spec fn deep_view(&self) -> EntryOutcomeView {
        self@
    }
}

/// The records of a run of entries: all of them, in the entries' order, if
/// every entry parsed; else the failure of the first entry that did not.
pub open spec fn collected(outcomes: Seq<EntryOutcomeView>) -> Result<
    Seq<ProcessView>,
    BuildErrorView,
>
    decreases outcomes.len(),
{
    if outcomes.len() == 0 {
        Ok(Seq::empty())
    } else {
        match collected(outcomes.drop_last()) {
            Err(e) => Err(e),
            Ok(records) => match outcomes.last() {
                EntryOutcomeView::Parsed(p) => Ok(records.push(p)),
                EntryOutcomeView::Failed { path, cause } => Err(
                    BuildErrorView::RecordReadOrParseFailure { path, cause },
                ),
            },
        }
    }
}

/// A collection succeeds exactly when no entry failed, and then holds one
/// record per entry; when it fails, the error names an entry that failed and
/// every entry before that one parsed.
pub proof fn lemma_collected(outcomes: Seq<EntryOutcomeView>)
    ensures
        match collected(outcomes) {
            Ok(records) => {
                &&& records.len() == outcomes.len()
                &&& forall|i: int|
                    0 <= i < outcomes.len() ==> #[trigger] outcomes[i] == EntryOutcomeView::Parsed(
                        records[i],
                    )
            },
            Err(e) => exists|k: int|
                {
                    &&& 0 <= k < outcomes.len()
                    &&& (#[trigger] outcomes[k]) matches EntryOutcomeView::Failed { path, cause }
                    &&& e == (BuildErrorView::RecordReadOrParseFailure { path, cause })
                    &&& forall|i: int| 0 <= i < k ==> (#[trigger] outcomes[i]) is Parsed
                },
        },
    decreases outcomes.len(),
{
    if outcomes.len() > 0 {
        let front = outcomes.drop_last();
        lemma_collected(front);
        match collected(front) {
            Err(e) => {
                let k = choose|k: int|
                    {
                        &&& 0 <= k < front.len()
                        &&& (#[trigger] front[k]) matches EntryOutcomeView::Failed { path, cause }
                        &&& e == (BuildErrorView::RecordReadOrParseFailure { path, cause })
                        &&& forall|i: int| 0 <= i < k ==> (#[trigger] front[i]) is Parsed
                    };
                assert(outcomes[k] == front[k]);
                assert forall|i: int| 0 <= i < k implies (#[trigger] outcomes[i]) is Parsed by {
                    assert(outcomes[i] == front[i]);
                }
            },
            Ok(records) => {
                assert forall|i: int| 0 <= i < front.len() implies (#[trigger] outcomes[i])
                    == front[i] by {}
                match outcomes.last() {
                    EntryOutcomeView::Parsed(p) => {
                        assert forall|i: int| 0 <= i < outcomes.len() implies #[trigger] outcomes[i]
                            == EntryOutcomeView::Parsed(records.push(p)[i]) by {
                            if i < front.len() {
                                assert(outcomes[i] == front[i]);
                            }
                        }
                    },
                    EntryOutcomeView::Failed { path, cause } => {
                        let k = outcomes.len() - 1;
                        assert(outcomes[k] == outcomes.last());
                        assert forall|i: int| 0 <= i < k implies (
                        #[trigger] outcomes[i]) is Parsed by {
                            assert(outcomes[i] == front[i]);
                        }
                    },
                }
            },
        }
    }
}

/// Turns the outcomes of the scratch directory's entries into records. One
/// failed entry fails the whole collection, with the error of the first such
/// entry: part of a collection is never accepted.
pub fn collect_processes(outcomes: Vec<EntryOutcome>) -> (r: Result<Vec<Process>, BuildError>)
    ensures
        match r {
            Ok(records) => collected(outcomes.deep_view()) == Ok::<
                Seq<ProcessView>,
                BuildErrorView,
            >(records.deep_view()),
            Err(e) => collected(outcomes.deep_view()) == Err::<Seq<ProcessView>, BuildErrorView>(
                e@,
            ),
        },
{
    let ghost given = outcomes@;
    let ghost all = outcomes.deep_view();
    let mut records: Vec<Process> = Vec::new();
    assert(all.take(0) =~= Seq::<EntryOutcomeView>::empty());
    assert(records.deep_view() =~= Seq::<ProcessView>::empty());
    for outcome in it: outcomes
        invariant
            it.seq() == given,
            all.len() == given.len(),
            forall|i: int| 0 <= i < given.len() ==> all[i] == (#[trigger] given[i])@,
            all == outcomes.deep_view(),
            collected(all.take(it.index())) == Ok::<Seq<ProcessView>, BuildErrorView>(
                records.deep_view(),
            ),
    {
        let ghost done = it.index();
        proof {
            assert(all.take(done + 1).drop_last() =~= all.take(done));
            assert(outcome == given[done]);
            assert(all.take(done + 1).last() == outcome@);
        }
        match outcome {
            EntryOutcome::Parsed(p) => {
                let ghost before = records.deep_view();
                records.push(p);
                assert(records.deep_view() =~= before.push(p@));
            },
            EntryOutcome::Failed { path, cause } => {
                proof {
                    lemma_collected_prefix(all, done + 1);
                }
                return Err(BuildError::RecordReadOrParseFailure { path, cause });
            },
        }
    }
    assert(all.take(all.len() as int) =~= all);
    Ok(records)
}

/// Once a prefix of the entries has failed, the whole run fails in the same
/// way.
pub proof fn lemma_collected_prefix(outcomes: Seq<EntryOutcomeView>, n: int)
    requires
        0 <= n <= outcomes.len(),
        collected(outcomes.take(n)) is Err,
    ensures
        collected(outcomes) == collected(outcomes.take(n)),
    decreases outcomes.len() - n,
{
    if n < outcomes.len() {
        assert(outcomes.take(n + 1).drop_last() =~= outcomes.take(n));
        lemma_collected_prefix(outcomes, n + 1);
    } else {
        assert(outcomes.take(n) =~= outcomes);
    }
}

/// What a finished collection amounts to: the first failed entry's error;
/// else the integrity verifier's error on the records; else the aggregate of
/// the command and the records, in the entries' order.
pub open spec fn build_outcome(command: Seq<char>, outcomes: Seq<EntryOutcomeView>) -> Result<
    BuildView,
    BuildErrorView,
> {
    match collected(outcomes) {
        Err(e) => Err(e),
        Ok(records) => match integrity_verdict(records) {
            Err(e) => Err(e),
            Ok(()) => Ok(BuildView { command, processes: records }),
        },
    }
}

/// A build that has been launched and has not ended yet.
#[derive(Debug, PartialEq, Eq)]
pub struct Driver {
    command: String,
    scratch_dir: String,
}

/// A build whose root process exited cleanly, and whose records are being
/// collected from the scratch directory.
#[derive(Debug, PartialEq, Eq)]
pub struct Collection {
    command: String,
    scratch_dir: String,
    outcomes: Vec<EntryOutcome>,
}

/// The model of a [`Driver`].
pub struct RunView {
    pub command: Seq<char>,
    pub scratch_dir: Seq<char>,
}

/// The model of a [`Collection`]: the run, and what became of the entries
/// read so far, in the order in which they were read.
pub struct CollectionView {
    pub command: Seq<char>,
    pub scratch_dir: Seq<char>,
    pub outcomes: Seq<EntryOutcomeView>,
}

impl View for Driver {
    type V = RunView;

    closed spec fn view(&self) -> RunView {
        RunView { command: self.command@, scratch_dir: self.scratch_dir@ }
    }
}

impl View for Collection {
    type V = CollectionView;

    closed spec fn view(&self) -> CollectionView {
        CollectionView {
            command: self.command@,
            scratch_dir: self.scratch_dir@,
            outcomes: self.outcomes.deep_view(),
        }
    }
}

impl Driver {
    /// Begins a traced build of `command`: says what to launch, and stands
    /// for the launched build from then on.
    pub fn start(command: &str, scratch_dir: &str, shim_library: &str) -> (r: (Driver, Launch))
        ensures
            r.0@ == (RunView { command: command@, scratch_dir: scratch_dir@ }),
            r.1@ == traced_launch(command@, scratch_dir@, shim_library@),
    {
        let mut args: Vec<String> = Vec::new();
        args.push("-c".to_owned());
        args.push(command.to_owned());
        let mut env: Vec<(String, String)> = Vec::new();
        env.push((preload_variable().to_owned(), shim_library.to_owned()));
        env.push((output_dir_variable().to_owned(), scratch_dir.to_owned()));
        let launch = Launch { program: "/bin/bash".to_owned(), args, env };
        proof {
            let plan = traced_launch(command@, scratch_dir@, shim_library@);
            assert(launch.args.deep_view() =~= plan.args);
            assert(launch.env.deep_view() =~= plan.env);
        }
        (Driver { command: command.to_owned(), scratch_dir: scratch_dir.to_owned() }, launch)
    }

    /// Takes note of the root process's end. Collection follows exit code 0
    /// and nothing else: any other code, or none, ends the build with the
    /// error that [`exit_meaning`] gives.
    pub fn exited(self, code: Option<i32>) -> (r: Result<Collection, BuildError>)
        ensures
            r is Ok <==> code == Some(0i32),
            match r {
                Ok(c) => c@ == (CollectionView {
                    command: self@.command,
                    scratch_dir: self@.scratch_dir,
                    outcomes: Seq::empty(),
                }),
                Err(e) => exit_meaning(code) == Err::<(), BuildErrorView>(e@),
            },
    {
        let verdict = exit_verdict(code);
        match verdict {
            Ok(()) => {
                let c = Collection {
                    command: self.command,
                    scratch_dir: self.scratch_dir,
                    outcomes: Vec::new(),
                };
                assert(c.outcomes.deep_view() =~= Seq::<EntryOutcomeView>::empty());
                Ok(c)
            },
            Err(e) => Err(e),
        }
    }
}

impl Collection {
    /// The directory whose entries are to be read.
    pub fn scratch_dir(&self) -> (r: &String)
        ensures
            r@ == self@.scratch_dir,
    {
        &self.scratch_dir
    }

    /// Ends the build because the scratch directory could not be listed.
    pub fn listing_failed(self) -> (r: BuildError)
        ensures
            r@ == BuildErrorView::ScratchDirectoryAccessFailure,
    {
        BuildError::ScratchDirectoryAccessFailure
    }

    /// Takes note of what became of the next entry, and says whether to read
    /// on: a failed entry decides the collection, so nothing after it needs
    /// to be read.
    pub fn entry(&mut self, outcome: EntryOutcome) -> (more: bool)
        ensures
            final(self)@ == (CollectionView {
                outcomes: old(self)@.outcomes.push(outcome@),
                ..old(self)@
            }),
            more == (outcome@ is Parsed),
    {
        let more = match &outcome {
            EntryOutcome::Parsed(_) => true,
            EntryOutcome::Failed { .. } => false,
        };
        self.outcomes.push(outcome);
        assert(self.outcomes.deep_view() =~= old(self).outcomes.deep_view().push(outcome@));
        more
    }

    /// Ends the build with the entries noted so far: the aggregate if every
    /// one of them parsed and the records are coherent, else the error, as
    /// [`build_outcome`] says.
    pub fn complete(self) -> (r: Result<Build, BuildError>)
        ensures
            match r {
                Ok(b) => build_outcome(self@.command, self@.outcomes) == Ok::<
                    BuildView,
                    BuildErrorView,
                >(b@),
                Err(e) => build_outcome(self@.command, self@.outcomes) == Err::<
                    BuildView,
                    BuildErrorView,
                >(e@),
            },
    {
        let records = collect_processes(self.outcomes);
        match records {
            Ok(processes) => Build::new(self.command.as_str(), processes),
            Err(e) => Err(e),
        }
    }
}

/// Entries that follow a failed one do not change what a collection amounts
/// to: reading may stop at the first failure.
pub proof fn lemma_failure_decides(
    command: Seq<char>,
    outcomes: Seq<EntryOutcomeView>,
    rest: Seq<EntryOutcomeView>,
)
    requires
        outcomes.len() > 0,
        outcomes.last() is Failed,
        collected(outcomes.drop_last()) is Ok,
    ensures
        collected(outcomes) is Err,
        build_outcome(command, outcomes + rest) == build_outcome(command, outcomes),
{
    let all = outcomes + rest;
    assert(all.take(outcomes.len() as int) =~= outcomes);
    lemma_collected_prefix(all, outcomes.len() as int);
}

} // verus!
