//! The interception shim's bookkeeping inside one traced process: the record
//! in progress, and the lifecycle from attachment to detachment.
//!
//! The shim is attached once, records one event per intercepted call, and is
//! detached once. Everything here is sequential: each operation takes the
//! state exclusively, so whoever shares a shim between threads serializes
//! the calls, and the record holds the events in the order in which the
//! calls got hold of the state.

use vstd::prelude::*;
use crate::event::{Event, EventData, EventDataView, EventView};
use crate::process::{Process, ProcessView};
use crate::scratch::{record_file_path, record_path};

verus! {

/// The record in progress of one traced process, and the directory in which
/// it will be persisted.
#[derive(Debug, PartialEq, Eq)]
pub struct Logfile {
    output_path: String,
    process: Process,
}

/// The model of a [`Logfile`].
pub struct LogfileView {
    pub output_path: Seq<char>,
    pub process: ProcessView,
}

impl LogfileView {
    /// The same log with `event` appended.
    pub open spec fn with_event(self, event: EventView) -> LogfileView {
        LogfileView {
            process: ProcessView { events: self.process.events.push(event), ..self.process },
            ..self
        }
    }
}

impl View for Logfile {
    type V = LogfileView;

    closed spec fn view(&self) -> LogfileView {
        LogfileView { output_path: self.output_path@, process: self.process@ }
    }
}

impl Logfile {
    /// A log without events for the process of the given identity, to be
    /// persisted under `output_path`.
    pub fn new(
        pid: usize,
        ppid: usize,
        argv: Vec<String>,
        envp: Vec<String>,
        working_dir: String,
        output_path: &str,
    ) -> (r: Logfile)
        ensures
            r@ == (LogfileView {
                output_path: output_path@,
                process: ProcessView {
                    pid: pid as nat,
                    ppid: ppid as nat,
                    argv: argv.deep_view(),
                    envp: envp.deep_view(),
                    working_dir: working_dir@,
                    events: Seq::empty(),
                },
            }),
    {
        Logfile {
            output_path: output_path.to_owned(),
            process: Process::new(pid, ppid, argv, envp, working_dir),
        }
    }

    /// Appends `event` to the record. The identity, the directory and the
    /// events recorded so far stay as they are.
    pub fn add(&mut self, event: Event)
        ensures
            final(self)@ == old(self)@.with_event(event@),
    {
        self.process.push_event(event);
    }

    /// The record as it stands.
    pub fn process(&self) -> (r: &Process)
        ensures
            r@ == self@.process,
    {
        &self.process
    }

    /// The path of the file that will hold the record.
    pub fn filepath(&self) -> (r: String)
        ensures
            r@ == record_path(self@.output_path, self@.process.pid),
    {
        record_file_path(self.output_path.as_str(), self.process.pid)
    }

    /// Closes the log: the file to write, and the record to write into it.
    pub fn finish(self) -> (r: (String, Process))
        ensures
            r.0@ == record_path(self@.output_path, self@.process.pid),
            r.1@ == self@.process,
    {
        let path = self.filepath();
        (path, self.process)
    }
}

/// The shim's state in one process, once the library is loaded: active, with
/// a record in progress, or inert.
#[derive(Debug, PartialEq, Eq)]
pub struct Shim {
    log: Option<Logfile>,
}

/// The model of a [`Shim`].
pub enum ShimView {
    /// No output directory was configured, or the shim was detached: nothing
    /// is recorded.
    Inert,
    /// The record in progress.
    Active(LogfileView),
}

impl View for Shim {
    type V = ShimView;

    closed spec fn view(&self) -> ShimView {
        match self.log {
            None => ShimView::Inert,
            Some(log) => ShimView::Active(log@),
        }
    }
}

/// The mark of attachment, made on thread `tid` at `timestamp`.
pub open spec fn loaded_mark(tid: nat, timestamp: nat) -> EventView {
    EventView { tid, timestamp, data: EventDataView::ShimLoaded }
}

/// The mark of detachment, made on thread `tid` at `timestamp`.
pub open spec fn unloaded_mark(tid: nat, timestamp: nat) -> EventView {
    EventView { tid, timestamp, data: EventDataView::ShimUnloaded }
}

/// The events of a record in progress: the mark of attachment, then
/// intercepted calls only.
pub open spec fn open_trace(events: Seq<EventView>) -> bool {
    &&& events.len() >= 1
    &&& events[0].data is ShimLoaded
    &&& forall|i: int| 1 <= i < events.len() ==> (#[trigger] events[i]).data.is_call()
}

/// The events of a persisted record: the mark of attachment, intercepted
/// calls only, and the mark of detachment.
pub open spec fn closed_trace(events: Seq<EventView>) -> bool {
    &&& events.len() >= 2
    &&& events[0].data is ShimLoaded
    &&& events.last().data is ShimUnloaded
    &&& forall|i: int| 1 <= i < events.len() - 1 ==> (#[trigger] events[i]).data.is_call()
}

impl ShimView {
    /// An active shim's record is an open trace.
    pub open spec fn wf(self) -> bool {
        match self {
            ShimView::Inert => true,
            ShimView::Active(log) => open_trace(log.process.events),
        }
    }

    /// The state after attachment. With an output directory the shim is
    /// active, and its record holds the identity and the mark of attachment;
    /// without one it is inert. `identity` carries no events.
    pub open spec fn attached(
        output_dir: Option<Seq<char>>,
        identity: ProcessView,
        tid: nat,
        timestamp: nat,
    ) -> ShimView {
        match output_dir {
            Some(dir) => ShimView::Active(
                LogfileView {
                    output_path: dir,
                    process: ProcessView { events: seq![loaded_mark(tid, timestamp)], ..identity },
                },
            ),
            None => ShimView::Inert,
        }
    }

    /// The state after one more event: an active shim appends it, an inert
    /// one stays as it is.
    pub open spec fn recorded(self, event: EventView) -> ShimView {
        match self {
            ShimView::Inert => ShimView::Inert,
            ShimView::Active(log) => ShimView::Active(log.with_event(event)),
        }
    }

    /// The state after all of `events`, one after the other.
    pub open spec fn replayed(self, events: Seq<EventView>) -> ShimView
        decreases events.len(),
    {
        if events.len() == 0 {
            self
        } else {
            self.replayed(events.drop_last()).recorded(events.last())
        }
    }

    /// What detachment leaves to persist: for an active shim the path of the
    /// file and the record, closed by the mark of detachment; for an inert
    /// one nothing.
    pub open spec fn detached(self, tid: nat, timestamp: nat) -> Option<(Seq<char>, ProcessView)> {
        match self {
            ShimView::Inert => None,
            ShimView::Active(log) => Some(
                (
                    record_path(log.output_path, log.process.pid),
                    log.with_event(unloaded_mark(tid, timestamp)).process,
                ),
            ),
        }
    }
}

impl Shim {
    #[verifier::type_invariant]
    spec fn well_formed(&self) -> bool {
        self@.wf()
    }

    /// Appends the event of an intercepted call, if the shim is active. The
    /// log leaves the state while it is written to and returns afterwards.
    fn record(&mut self, event: Event)
        requires
            event@.data.is_call(),
        ensures
            final(self)@.wf(),
            final(self)@ == old(self)@.recorded(event@),
    {
        proof {
            use_type_invariant(&*self);
        }
        let mut taken: Option<Logfile> = None;
        std::mem::swap(&mut self.log, &mut taken);
        let mut updated: Option<Logfile> = match taken {
            Some(log) => {
                let mut log = log;
                log.add(event);
                Some(log)
            },
            None => None,
        };
        std::mem::swap(&mut self.log, &mut updated);
    }

    /// Attaches the shim to the process of the given identity. The shim is
    /// active exactly when an output directory is configured; the mark of
    /// attachment is then the first event of its record.
    pub fn on_attach(
        output_dir: Option<String>,
        pid: usize,
        ppid: usize,
        argv: Vec<String>,
        envp: Vec<String>,
        working_dir: String,
        tid: usize,
        timestamp: usize,
    ) -> (r: Shim)
        ensures
            r@.wf(),
            r@ == ShimView::attached(
                match output_dir {
                    Some(dir) => Some(dir@),
                    None => None,
                },
                ProcessView {
                    pid: pid as nat,
                    ppid: ppid as nat,
                    argv: argv.deep_view(),
                    envp: envp.deep_view(),
                    working_dir: working_dir@,
                    events: Seq::empty(),
                },
                tid as nat,
                timestamp as nat,
            ),
    {
        match output_dir {
            Some(dir) => {
                let mut log = Logfile::new(pid, ppid, argv, envp, working_dir, dir.as_str());
                log.add(Event::new(tid, timestamp, EventData::ShimLoaded));
                assert(log@.process.events =~= seq![loaded_mark(tid as nat, timestamp as nat)]);
                Shim { log: Some(log) }
            },
            None => Shim { log: None },
        }
    }

    /// The shim of a process for which no output directory is configured.
    /// Nothing of the process needs to be known for it.
    pub fn inert() -> (r: Shim)
        ensures
            r@ == ShimView::Inert,
    {
        Shim { log: None }
    }

    /// Whether anything is being recorded.
    pub fn is_active(&self) -> (r: bool)
        ensures
            r == (self@ is Active),
    {
        self.log.is_some()
    }

    /// The record in progress, if the shim is active. Whatever was done with
    /// the shim so far, that record begins with the mark of attachment, and
    /// intercepted calls alone follow it.
    pub fn record_in_progress(&self) -> (r: Option<&Process>)
        ensures
            self@.wf(),
            match r {
                Some(p) => self@ is Active && p@ == self@->Active_0.process && open_trace(
                    p@.events,
                ),
                None => self@ is Inert,
            },
    {
        proof {
            use_type_invariant(self);
        }
        match &self.log {
            Some(log) => Some(log.process()),
            None => None,
        }
    }

    /// Records an intercepted exec-family call, made on thread `tid` at
    /// `timestamp`, whatever the call's outcome will be.
    pub fn record_exec(
        &mut self,
        function_name: String,
        filename: String,
        argv: Vec<String>,
        envp: Vec<String>,
        tid: usize,
        timestamp: usize,
    )
        ensures
            final(self)@.wf(),
            final(self)@ == old(self)@.recorded(
                EventView {
                    tid: tid as nat,
                    timestamp: timestamp as nat,
                    data: EventDataView::Exec {
                        function_name: function_name@,
                        filename: filename@,
                        argv: argv.deep_view(),
                        envp: envp.deep_view(),
                    },
                },
            ),
    {
        self.record(
            Event::new(tid, timestamp, EventData::Exec { function_name, filename, argv, envp }),
        );
    }

    /// Records an intercepted exit-family call, made on thread `tid` at
    /// `timestamp` with the requested `status`.
    pub fn record_exit(&mut self, function_name: String, status: usize, tid: usize, timestamp: usize)
        ensures
            final(self)@.wf(),
            final(self)@ == old(self)@.recorded(
                EventView {
                    tid: tid as nat,
                    timestamp: timestamp as nat,
                    data: EventDataView::Exit {
                        function_name: function_name@,
                        status: status as nat,
                    },
                },
            ),
    {
        self.record(Event::new(tid, timestamp, EventData::Exit { function_name, status }));
    }

    /// Detaches the shim, on thread `tid` at `timestamp`. An active shim
    /// hands over the file to write and the record, which ends with the mark
    /// of detachment; an inert one hands over nothing. Either way the shim is
    /// inert from then on, so that a call intercepted later records nothing
    /// and nothing is handed over twice.
    pub fn on_detach(&mut self, tid: usize, timestamp: usize) -> (r: Option<(String, Process)>)
        ensures
            final(self)@ is Inert,
            match r {
                Some((path, record)) => old(self)@.detached(tid as nat, timestamp as nat) == Some(
                    (path@, record@),
                ) && closed_trace(record@.events),
                None => old(self)@.detached(tid as nat, timestamp as nat).is_none(),
            },
    {
        proof {
            use_type_invariant(&*self);
        }
        let mut taken: Option<Logfile> = None;
        std::mem::swap(&mut self.log, &mut taken);
        match taken {
            Some(log) => {
                let mut log = log;
                log.add(Event::new(tid, timestamp, EventData::ShimUnloaded));
                Some(log.finish())
            },
            None => None,
        }
    }
}

/// Recording one more intercepted call keeps a state well formed.
pub proof fn lemma_recorded_wf(s: ShimView, event: EventView)
    requires
        s.wf(),
        event.data.is_call(),
    ensures
        s.recorded(event).wf(),
{
}

/// The shape of a record. A shim attached with an output directory that then
/// records `calls`, in this order, holds the mark of attachment followed by
/// exactly these calls: none lost, none twice, none out of order. Detached,
/// it leaves that record closed by the mark of detachment, which makes two
/// events more than there were calls.
pub proof fn lemma_trace_shape(
    dir: Seq<char>,
    identity: ProcessView,
    loaded: (nat, nat),
    calls: Seq<EventView>,
    unloaded: (nat, nat),
)
    requires
        forall|i: int| 0 <= i < calls.len() ==> (#[trigger] calls[i]).data.is_call(),
    ensures
        ({
            let s = ShimView::attached(Some(dir), identity, loaded.0, loaded.1).replayed(calls);
            let first = seq![loaded_mark(loaded.0, loaded.1)];
            let last = seq![unloaded_mark(unloaded.0, unloaded.1)];
            &&& s.wf()
            &&& s is Active
            &&& s->Active_0.output_path == dir
            &&& s->Active_0.process == (ProcessView { events: first + calls, ..identity })
            &&& s->Active_0.process.events.len() == calls.len() + 1
            &&& s.detached(unloaded.0, unloaded.1) == Some(
                (
                    record_path(dir, identity.pid),
                    ProcessView { events: first + calls + last, ..identity },
                ),
            )
            &&& closed_trace(first + calls + last)
            &&& (first + calls + last).len() == calls.len() + 2
        }),
    decreases calls.len(),
{
    let first = seq![loaded_mark(loaded.0, loaded.1)];
    let last = seq![unloaded_mark(unloaded.0, unloaded.1)];
    if calls.len() == 0 {
        assert(first + calls =~= first);
    } else {
        lemma_trace_shape(dir, identity, loaded, calls.drop_last(), unloaded);
        assert((first + calls.drop_last()).push(calls.last()) =~= first + calls);
    }
    assert((first + calls).push(unloaded_mark(unloaded.0, unloaded.1)) =~= first + calls + last);
}

/// An inert shim records nothing and leaves nothing to persist, whatever is
/// asked of it.
pub proof fn lemma_inert_stays_inert(
    identity: ProcessView,
    loaded: (nat, nat),
    events: Seq<EventView>,
    unloaded: (nat, nat),
)
    ensures
        ShimView::attached(None, identity, loaded.0, loaded.1).replayed(events) is Inert,
        ShimView::attached(None, identity, loaded.0, loaded.1).replayed(events).detached(
            unloaded.0,
            unloaded.1,
        ).is_none(),
    decreases events.len(),
{
    if events.len() > 0 {
        lemma_inert_stays_inert(identity, loaded, events.drop_last(), unloaded);
    }
}

} // verus!
