//! The event model: one recorded occurrence inside a traced process.

use vstd::prelude::*;

verus! {

/// What happened: the payload of an [`Event`].
#[derive(Debug, Clone, PartialEq, Eq)]
pub enum EventData {
    /// The shim attached to the process.
    ShimLoaded,
    /// The shim detached from the process.
    ShimUnloaded,
    /// An exec-family call was intercepted.
    Exec { function_name: String, filename: String, argv: Vec<String>, envp: Vec<String> },
    /// An exit-family call was intercepted.
    Exit { function_name: String, status: usize },
}

/// The model of an [`EventData`].
pub enum EventDataView {
    ShimLoaded,
    ShimUnloaded,
    Exec {
        function_name: Seq<char>,
        filename: Seq<char>,
        argv: Seq<Seq<char>>,
        envp: Seq<Seq<char>>,
    },
    Exit { function_name: Seq<char>, status: nat },
}

impl EventDataView {
    /// An intercepted call, as opposed to one of the two lifecycle marks.
    pub open spec fn is_call(self) -> bool {
        self is Exec || self is Exit
    }
}

impl View for EventData {
    type V = EventDataView;

    open spec fn view(&self) -> EventDataView {
        match *self {
            EventData::ShimLoaded => EventDataView::ShimLoaded,
            EventData::ShimUnloaded => EventDataView::ShimUnloaded,
            EventData::Exec { function_name, filename, argv, envp } => EventDataView::Exec {
                function_name: function_name@,
                filename: filename@,
                argv: argv.deep_view(),
                envp: envp.deep_view(),
            },
            EventData::Exit { function_name, status } => EventDataView::Exit {
                function_name: function_name@,
                status: status as nat,
            },
        }
    }
}

/// One recorded occurrence: which thread, when, and what.
#[derive(Debug, Clone, PartialEq, Eq)]
pub struct Event {
    pub tid: usize,
    /// Microseconds since the epoch.
    pub timestamp: usize,
    pub data: EventData,
}

/// The model of an [`Event`].
pub struct EventView {
    pub tid: nat,
    pub timestamp: nat,
    pub data: EventDataView,
}

impl View for Event {
    type V = EventView;

    open spec fn view(&self) -> EventView {
        EventView { tid: self.tid as nat, timestamp: self.timestamp as nat, data: self.data@ }
    }
}

impl DeepView for Event {
    type V = EventView;

    open spec fn deep_view(&self) -> EventView {
        self@
    }
}

/// Microseconds since the epoch for a time given as whole seconds and the
/// nanoseconds of the running second.
pub open spec fn micros_since_epoch(secs: nat, subsec_nanos: nat) -> nat {
    secs * 1_000_000 + subsec_nanos / 1_000
}

/// Computes [`micros_since_epoch`], or `None` where the result does not fit
/// the machine word.
pub fn timestamp_micros(secs: u64, subsec_nanos: u32) -> (r: Option<usize>)
    ensures
        match r {
            Some(t) => t as nat == micros_since_epoch(secs as nat, subsec_nanos as nat),
            None => micros_since_epoch(secs as nat, subsec_nanos as nat) > usize::MAX,
        },
{
    let whole: u64 = match secs.checked_mul(1_000_000) {
        Some(w) => w,
        None => { return None; },
    };
    let part: u64 = (subsec_nanos / 1_000) as u64;
    let total: u64 = match whole.checked_add(part) {
        Some(t) => t,
        None => { return None; },
    };
    if total > usize::MAX as u64 {
        None
    } else {
        Some(total as usize)
    }
}

impl Event {
    /// The event `data`, observed on thread `tid` at `timestamp`.
    pub fn new(tid: usize, timestamp: usize, data: EventData) -> (r: Event)
        ensures
            r.tid == tid,
            r.timestamp == timestamp,
            r.data == data,
            r@ == (EventView { tid: tid as nat, timestamp: timestamp as nat, data: data@ }),
    {
        Event { tid, timestamp, data }
    }

    /// Whether this event marks the shim's attachment.
    pub fn is_loaded_mark(&self) -> (r: bool)
        ensures
            r == (self@.data is ShimLoaded),
    {
        match &self.data {
            EventData::ShimLoaded => true,
            _ => false,
        }
    }

    /// Whether this event marks the shim's detachment.
    pub fn is_unloaded_mark(&self) -> (r: bool)
        ensures
            r == (self@.data is ShimUnloaded),
    {
        match &self.data {
            EventData::ShimUnloaded => true,
            _ => false,
        }
    }
}

} // verus!
