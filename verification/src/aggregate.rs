//! The validated aggregate of one traced build.

use vstd::prelude::*;
use crate::error::{BuildError, BuildErrorView};
use crate::integrity::{coherent, integrity_verdict, verify_integrity};
use crate::process::{Process, ProcessView};

verus! {

/// The command that was traced and the records of its processes. A value of
/// this type exists only for records that the integrity verifier accepted.
#[derive(Debug, PartialEq, Eq)]
pub struct Build {
    command: String,
    processes: Vec<Process>,
}

/// The model of a [`Build`].
pub struct BuildView {
    pub command: Seq<char>,
    pub processes: Seq<ProcessView>,
}

impl View for Build {
    type V = BuildView;

    closed spec fn view(&self) -> BuildView {
        BuildView { command: self.command@, processes: self.processes.deep_view() }
    }
}

impl Build {
    #[verifier::type_invariant]
    spec fn records_coherent(&self) -> bool {
        coherent(self.processes.deep_view())
    }

    /// Promotes collected records to a build.
    ///
    /// Succeeds exactly when the records are coherent, and then keeps the
    /// command and the records as given, in the order given. Otherwise the
    /// error is the integrity verifier's.
    pub fn new(command: &str, processes: Vec<Process>) -> (r: Result<Build, BuildError>)
        ensures
            r is Ok <==> coherent(processes.deep_view()),
            match r {
                Ok(b) => b@ == (BuildView {
                    command: command@,
                    processes: processes.deep_view(),
                }),
                Err(e) => integrity_verdict(processes.deep_view()) == Err::<(), BuildErrorView>(
                    e@,
                ),
            },
    {
        let verdict = verify_integrity(&processes);
        match verdict {
            Ok(()) => Ok(Build { command: command.to_owned(), processes }),
            Err(e) => Err(e),
        }
    }

    /// The traced command.
    pub fn command(&self) -> (r: &String)
        ensures
            r@ == self@.command,
    {
        &self.command
    }

    /// The records, which are coherent.
    pub fn processes(&self) -> (r: &Vec<Process>)
        ensures
            r.deep_view() == self@.processes,
            coherent(self@.processes),
    {
        proof {
            use_type_invariant(self);
        }
        &self.processes
    }

    /// Gives up the aggregate for its parts: the command and the records.
    pub fn into_parts(self) -> (r: (String, Vec<Process>))
        ensures
            r.0@ == self@.command,
            r.1.deep_view() == self@.processes,
            coherent(self@.processes),
    {
        proof {
            use_type_invariant(&self);
        }
        (self.command, self.processes)
    }
}

} // verus!
