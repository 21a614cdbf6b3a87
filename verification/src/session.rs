//! Per-consumer tailing state machine. A session owns a cursor into one
//! store and is driven by repeatedly asking for the next step: it replays
//! every retrievable record from the oldest one, then follows new records,
//! waiting on the store's signal between pushes, and closes for good once
//! its cursor falls behind the retention window.

use vstd::prelude::*;
use crate::buffer::{GetResult, R};
use crate::codec::Record;
use crate::signal::WakeSignal;

verus! {

/// Protocol state of one tailing consumer.
#[derive(PartialEq, Eq, Structural)]
pub enum SessionState {
    /// replaying records the store already holds
    Catchup,
    /// the cursor has caught up with the writer; same protocol as `Catchup`,
    /// distinguished only by expected latency
    Live,
    /// blocked on the store's wake signal
    Waiting,
    /// terminal: the consumer fell behind the retention window
    Closed,
}

/// Cursor and state machine of one tailing consumer. A session never
/// mutates the store; it only reads it.
pub struct TailSession {
    idx: usize,
    state: SessionState,
}

/// What the transport layer must do next for one session.
pub enum Step {
    /// Send these bytes, one encoded record, to the consumer, then ask
    /// again at once.
    Emit(Vec<u8>),
    /// Nothing new yet: block on this handle (the store's own signal), then
    /// ask again with the cursor unchanged.
    Wait(WakeSignal),
    /// The session is over; end the connection without an error payload.
    Closed,
}

impl TailSession {
    /// This session's next index to consume.
    pub closed spec fn spec_idx(self) -> usize {
        self.idx
    }

    /// This session's protocol state.
    pub closed spec fn spec_state(self) -> SessionState {
        self.state
    }

    /// Drive the state machine one step against the store's current state.
    /// Exactly one of the three outcomes holds, decided by where the cursor
    /// stands relative to the store's window at the instant of the call.
    pub fn next<T: Record>(&mut self, store: &R<T>) -> (r: Step)
        requires
            store.wf(),
        ensures
            match r {
                Step::Emit(bytes) => {
                    &&& old(self).spec_state() != SessionState::Closed
                    &&& store.spec_bottom() <= old(self).spec_idx() < store.spec_top()
                    &&& bytes@ == store@[old(self).spec_idx() as int].enc()
                    &&& final(self).spec_idx() == old(self).spec_idx() + 1
                    &&& final(self).spec_state() == (if old(self).spec_idx() + 1
                        == store.spec_top() {
                        SessionState::Live
                    } else {
                        SessionState::Catchup
                    })
                },
                Step::Wait(s) => {
                    &&& old(self).spec_state() != SessionState::Closed
                    &&& old(self).spec_idx() >= store.spec_top()
                    &&& s == store.signal()
                    &&& final(self).spec_idx() == old(self).spec_idx()
                    &&& final(self).spec_state() == SessionState::Waiting
                },
                Step::Closed => {
                    &&& (old(self).spec_state() == SessionState::Closed || old(self).spec_idx()
                        < store.spec_bottom())
                    &&& final(self).spec_idx() == old(self).spec_idx()
                    &&& final(self).spec_state() == SessionState::Closed
                },
            },
    {
        if self.state == SessionState::Closed {
            return Step::Closed;
        }
        match store.get(self.idx) {
            GetResult::Ready(v) => {
                proof {
                    T::enc_respects_clone(store@[self.idx as int], v);
                }
                let bytes = v.encode();
                self.idx = self.idx + 1;
                self.state = if self.idx == store.top() {
                    SessionState::Live
                } else {
                    SessionState::Catchup
                };
                Step::Emit(bytes)
            },
            GetResult::Expired => {
                self.state = SessionState::Closed;
                Step::Closed
            },
            GetResult::Pending(s) => {
                self.state = SessionState::Waiting;
                Step::Wait(s)
            },
        }
    }
}

impl<T> R<T> {
    /// A session for a newly connected consumer: backfilled from the oldest
    /// retrievable record, never from empty.
    pub fn new_session(&self) -> (s: TailSession)
        requires
            self.wf(),
        ensures
            s.spec_idx() == self.spec_bottom(),
            s.spec_state() == SessionState::Catchup,
    {
        TailSession { idx: self.bottom(), state: SessionState::Catchup }
    }
}

} // verus!
