//! The scratch directory: the hand-off between the traced processes, which
//! each write one record into it, and the driver, which reads them back.

use vstd::prelude::*;
use vstd::string::StringExecFns;

verus! {

/// The character of one decimal digit.
pub open spec fn digit_char(d: nat) -> char {
    if d == 0 {
        '0'
    } else if d == 1 {
        '1'
    } else if d == 2 {
        '2'
    } else if d == 3 {
        '3'
    } else if d == 4 {
        '4'
    } else if d == 5 {
        '5'
    } else if d == 6 {
        '6'
    } else if d == 7 {
        '7'
    } else if d == 8 {
        '8'
    } else {
        '9'
    }
}

/// The number that a digit's character stands for.
pub open spec fn digit_value(c: char) -> nat {
    if c == '0' {
        0
    } else if c == '1' {
        1
    } else if c == '2' {
        2
    } else if c == '3' {
        3
    } else if c == '4' {
        4
    } else if c == '5' {
        5
    } else if c == '6' {
        6
    } else if c == '7' {
        7
    } else if c == '8' {
        8
    } else {
        9
    }
}

/// `n` in decimal: no sign, no leading zero, `"0"` for zero.
pub open spec fn decimal_text(n: nat) -> Seq<char>
    decreases n,
{
    if n < 10 {
        seq![digit_char(n)]
    } else {
        decimal_text(n / 10).push(digit_char(n % 10))
    }
}

/// The number that a text of decimal digits stands for.
pub open spec fn decimal_value(s: Seq<char>) -> nat
    decreases s.len(),
{
    if s.len() == 0 {
        0
    } else {
        decimal_value(s.drop_last()) * 10 + digit_value(s.last())
    }
}

/// Where the record of process `pid` lies under the directory `dir`: the
/// directory, a slash, and the pid in decimal, which is the file's whole
/// name.
pub open spec fn record_path(dir: Seq<char>, pid: nat) -> Seq<char> {
    dir + seq!['/'] + decimal_text(pid)
}

/// Reading a number's decimal text gives the number back.
pub proof fn lemma_decimal_value(n: nat)
    ensures
        decimal_value(decimal_text(n)) == n,
        decimal_text(n).len() >= 1,
    decreases n,
{
    if n < 10 {
        let s = seq![digit_char(n)];
        assert(s.drop_last() =~= Seq::<char>::empty());
        assert(s.last() == digit_char(n));
        assert(decimal_value(s.drop_last()) == 0);
    } else {
        lemma_decimal_value(n / 10);
        let s = decimal_text(n / 10).push(digit_char(n % 10));
        assert(s.drop_last() =~= decimal_text(n / 10));
        assert(s.last() == digit_char(n % 10));
    }
}

/// Different pids have different decimal texts.
pub proof fn lemma_decimal_text_injective(p: nat, q: nat)
    requires
        decimal_text(p) == decimal_text(q),
    ensures
        p == q,
{
    lemma_decimal_value(p);
    lemma_decimal_value(q);
}

/// Under one directory, different pids have different record paths: no two
/// processes write to the same file.
pub proof fn lemma_record_path_injective(dir: Seq<char>, p: nat, q: nat)
    requires
        record_path(dir, p) == record_path(dir, q),
    ensures
        p == q,
{
    let head = dir + seq!['/'];
    let a = decimal_text(p);
    let b = decimal_text(q);
    assert((head + a).len() == (head + b).len());
    assert forall|i: int| 0 <= i < a.len() implies a[i] == b[i] by {
        assert((head + a)[head.len() + i] == a[i]);
        assert((head + b)[head.len() + i] == b[i]);
    }
    assert(a =~= b);
    lemma_decimal_text_injective(p, q);
}

/// The text of one decimal digit.
fn digit_text(d: usize) -> (r: &'static str)
    requires
        d < 10,
    ensures
        r@ == seq![digit_char(d as nat)],
{
    proof {
        reveal_strlit("0");
        reveal_strlit("1");
        reveal_strlit("2");
        reveal_strlit("3");
        reveal_strlit("4");
        reveal_strlit("5");
        reveal_strlit("6");
        reveal_strlit("7");
        reveal_strlit("8");
        reveal_strlit("9");
    }
    let r = if d == 0 {
        "0"
    } else if d == 1 {
        "1"
    } else if d == 2 {
        "2"
    } else if d == 3 {
        "3"
    } else if d == 4 {
        "4"
    } else if d == 5 {
        "5"
    } else if d == 6 {
        "6"
    } else if d == 7 {
        "7"
    } else if d == 8 {
        "8"
    } else {
        "9"
    };
    assert(r@ =~= seq![digit_char(d as nat)]);
    r
}

/// Writes `n` in decimal.
pub fn decimal(n: usize) -> (r: String)
    ensures
        r@ == decimal_text(n as nat),
    decreases n,
{
    if n < 10 {
        digit_text(n).to_owned()
    } else {
        let mut s = decimal(n / 10);
        s.append(digit_text(n % 10));
        assert(s@ =~= decimal_text(n as nat / 10).push(digit_char(n as nat % 10)));
        s
    }
}

/// The path of the record of process `pid` under the directory `dir`.
pub fn record_file_path(dir: &str, pid: usize) -> (r: String)
    ensures
        r@ == record_path(dir@, pid as nat),
{
    proof {
        reveal_strlit("/");
    }
    let mut path = dir.to_owned();
    path.append("/");
    let name = decimal(pid);
    path.append(name.as_str());
    assert(path@ =~= record_path(dir@, pid as nat));
    path
}

/// A claim on a scratch directory that did not exist before the build: its
/// holder creates the directory, and removes it once collection is over.
#[derive(Debug, PartialEq, Eq)]
pub struct TemporaryDirectory {
    path: String,
}

impl View for TemporaryDirectory {
    type V = Seq<char>;

    closed spec fn view(&self) -> Seq<char> {
        self.path@
    }
}

impl TemporaryDirectory {
    /// Claims `path` as the scratch directory. Only a path that does not
    /// exist yet can be claimed: one that exists holds what another build, or
    /// the user, put there, and there is no claim on it to hand out.
    pub fn create(path: String, already_exists: bool) -> (r: TemporaryDirectory)
        requires
            !already_exists,
        ensures
            r@ == path@,
    {
        TemporaryDirectory { path }
    }

    /// The directory's path.
    pub fn path(&self) -> (r: &String)
        ensures
            r@ == self@,
    {
        &self.path
    }

    /// Where the record of process `pid` lies in this directory.
    pub fn record_file(&self, pid: usize) -> (r: String)
        ensures
            r@ == record_path(self@, pid as nat),
    {
        record_file_path(self.path.as_str(), pid)
    }

    /// Ends the claim and hands back the path of the directory to remove.
    pub fn release(self) -> (r: String)
        ensures
            r@ == self@,
    {
        self.path
    }
}

} // verus!
