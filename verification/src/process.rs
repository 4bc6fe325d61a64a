//! The record of one traced process.

use vstd::prelude::*;
use vstd::string::StringExecFns;
use crate::event::{Event, EventView};

verus! {

/// One traced process: its identity, fixed when the shim attached, and the
/// events recorded during its lifetime, in the order they were appended.
#[derive(Debug, Clone, PartialEq, Eq)]
pub struct Process {
    pub pid: usize,
    pub ppid: usize,
    pub argv: Vec<String>,
    /// `KEY=VALUE` strings.
    pub envp: Vec<String>,
    pub working_dir: String,
    pub events: Vec<Event>,
}

/// The model of a [`Process`].
pub struct ProcessView {
    pub pid: nat,
    pub ppid: nat,
    pub argv: Seq<Seq<char>>,
    pub envp: Seq<Seq<char>>,
    pub working_dir: Seq<char>,
    pub events: Seq<EventView>,
}

impl View for Process {
    type V = ProcessView;

    open spec fn view(&self) -> ProcessView {
        ProcessView {
            pid: self.pid as nat,
            ppid: self.ppid as nat,
            argv: self.argv.deep_view(),
            envp: self.envp.deep_view(),
            working_dir: self.working_dir@,
            events: self.events.deep_view(),
        }
    }
}

impl DeepView for Process {
    type V = ProcessView;

    open spec fn deep_view(&self) -> ProcessView {
        self@
    }
}

impl Process {
    /// A record with the given identity and no events yet.
    pub fn new(
        pid: usize,
        ppid: usize,
        argv: Vec<String>,
        envp: Vec<String>,
        working_dir: String,
    ) -> (r: Process)
        ensures
            r@ == (ProcessView {
                pid: pid as nat,
                ppid: ppid as nat,
                argv: argv.deep_view(),
                envp: envp.deep_view(),
                working_dir: working_dir@,
                events: Seq::empty(),
            }),
    {
        let r = Process { pid, ppid, argv, envp, working_dir, events: Vec::new() };
        assert(r.events.deep_view() =~= Seq::<EventView>::empty());
        r
    }

    /// Appends `event` to the record; nothing else changes.
    pub fn push_event(&mut self, event: Event)
        ensures
            final(self)@ == (ProcessView {
                events: old(self)@.events.push(event@),
                ..old(self)@
            }),
    {
        self.events.push(event);
        assert(self.events.deep_view() =~= old(self).events.deep_view().push(event@));
    }
}

/// One entry of a process's environment as it is recorded: the variable's
/// name, an equals sign, and its value.
pub open spec fn env_entry_text(name: Seq<char>, value: Seq<char>) -> Seq<char> {
    name + seq!['='] + value
}

/// The recorded form of a whole environment: one entry per variable, in the
/// variables' order.
pub open spec fn env_block_text(vars: Seq<(Seq<char>, Seq<char>)>) -> Seq<Seq<char>> {
    Seq::new(vars.len(), |i: int| env_entry_text(vars[i].0, vars[i].1))
}

/// Writes one variable as `NAME=VALUE`.
pub fn env_entry(name: &str, value: &str) -> (r: String)
    ensures
        r@ == env_entry_text(name@, value@),
{
    proof {
        reveal_strlit("=");
    }
    let mut entry = name.to_owned();
    entry.append("=");
    entry.append(value);
    assert(entry@ =~= env_entry_text(name@, value@));
    entry
}

/// Writes the variables of an environment as `NAME=VALUE` entries, in the
/// order given.
pub fn env_block(vars: &Vec<(String, String)>) -> (r: Vec<String>)
    ensures
        r.deep_view() == env_block_text(vars.deep_view()),
{
    let n: usize = vars.len();
    let mut block: Vec<String> = Vec::new();
    let mut i: usize = 0;
    while i < n
        invariant
            n == vars.len(),
            0 <= i <= n,
            block.len() == i,
            forall|k: int|
                0 <= k < i ==> (#[trigger] block[k])@ == env_entry_text(vars[k].0@, vars[k].1@),
        decreases n - i,
    {
        let entry = env_entry(vars[i].0.as_str(), vars[i].1.as_str());
        block.push(entry);
        i += 1;
    }
    assert(block.deep_view() =~= env_block_text(vars.deep_view()));
    block
}

} // verus!
