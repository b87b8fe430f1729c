//! The record of one stream, as far as sending reads and writes it.

use vstd::prelude::*;
use futures::task::Task;
use crate::error::{ConnectionError, User};
use crate::ext::notify;
use crate::flow_control::{FlowControl, WindowSize, MAX_WINDOW_SIZE, MIN_WINDOW_SIZE};
use crate::frame::StreamId;
use crate::state::State;
use crate::store::Key;

verus! {

#[derive(Debug)]
pub struct Stream {
    pub id: StreamId,
    pub state: State,
    /// The part of the window that the peer has granted to the stream and
    /// that the connection's window does not cover yet.
    pub unadvertised_send_window: WindowSize,
    /// The task to wake when the stream may send more.
    pub send_task: Option<Task>,
    /// Set while the stream is in the queue of streams that wait for
    /// connection capacity.
    pub is_pending_send_capacity: bool,
    /// The stream behind this one in that queue.
    pub next_capacity: Option<Key>,
}

impl Stream {
    pub open spec fn wf(self) -> bool {
        &&& self.state.wf()
        &&& 0 <= self.unadvertised_send_window
    }

    /// The record of a stream that has neither sent nor received anything.
    pub open spec fn fresh(id: StreamId) -> Stream {
        Stream {
            id,
            state: State::Idle,
            unadvertised_send_window: 0,
            send_task: None,
            is_pending_send_capacity: false,
            next_capacity: None,
        }
    }

    /// The record without its link into the queue.
    pub open spec fn detached(self) -> Stream {
        Stream { next_capacity: None, ..self }
    }

    /// The record after its waiting task was woken.
    pub open spec fn notified(self) -> Stream {
        Stream { send_task: None, ..self }
    }

    /// The number of bytes that the stream may send now: its window less
    /// the part that the connection does not cover, and nothing while the
    /// window is in debt or the stream cannot send.
    pub open spec fn sendable(self) -> int {
        match self.state.send_flow() {
            Some(flow) => {
                if flow.effective() > self.unadvertised_send_window {
                    flow.effective() - self.unadvertised_send_window
                } else {
                    0
                }
            },
            None => 0,
        }
    }

    /// The record after `task` asked how much the stream may send: the task
    /// is the one to wake, and waiting grants are applied to the window. A
    /// stream that cannot send stays as it is.
    pub open spec fn observed(self, task: Task) -> Stream {
        match self.state.send_flow() {
            Some(flow) => Stream {
                send_task: Some(task),
                state: self.state.with_send_flow(flow.applied()),
                ..self
            },
            None => self,
        }
    }

    /// Why `sz` bytes of data cannot be sent on the stream, if they cannot.
    pub open spec fn claim_error(self, sz: int) -> Option<ConnectionError> {
        match self.state.send_flow() {
            Some(flow) => {
                if sz + self.unadvertised_send_window > flow.window_size {
                    Some(ConnectionError::User(User::FlowControlViolation))
                } else {
                    None
                }
            },
            None => {
                if self.state is Closed {
                    Some(ConnectionError::User(User::InactiveStreamId))
                } else {
                    Some(ConnectionError::User(User::UnexpectedFrameType))
                }
            },
        }
    }

    /// The record after `sz` bytes were taken from the stream's window.
    pub open spec fn claimed(self, sz: int) -> Stream {
        match self.state.send_flow() {
            Some(flow) => Stream { state: self.state.with_send_flow(flow.claimed(sz)), ..self },
            None => self,
        }
    }

    /// Whether the peer can grant `incr` more bytes to the stream: always
    /// where the stream cannot send, since the grant is then ignored.
    pub open spec fn can_expand(self, incr: int) -> bool {
        match self.state.send_flow() {
            Some(flow) => flow.can_expand(incr),
            None => true,
        }
    }

    /// Whether a grant of `incr` bytes, with `connection` bytes free on the
    /// connection, leaves a part of the stream's window uncovered.
    pub open spec fn is_short(self, incr: int, connection: int) -> bool {
        match self.state.send_flow() {
            Some(flow) => connection < flow.effective() + incr,
            None => false,
        }
    }

    /// Whether such a grant puts the stream into the queue of streams that
    /// wait for connection capacity: it does unless the stream is there.
    pub open spec fn joins(self, incr: int, connection: int) -> bool {
        self.is_short(incr, connection) && !self.is_pending_send_capacity
    }

    /// The record after the peer granted `incr` bytes to the stream while
    /// `connection` bytes were free on the connection. What the connection
    /// does not cover is set aside and the stream is marked as waiting for
    /// it. The task is woken unless the whole grant was set aside.
    pub open spec fn granted(self, incr: int, connection: int) -> Stream {
        match self.state.send_flow() {
            Some(flow) => {
                let effective = flow.effective() + incr;
                let unadvertised: int = if connection < effective {
                    effective - connection
                } else {
                    self.unadvertised_send_window as int
                };
                Stream {
                    state: self.state.with_send_flow(flow.expanded(incr)),
                    unadvertised_send_window: unadvertised as WindowSize,
                    is_pending_send_capacity: self.is_pending_send_capacity || connection
                        < effective,
                    send_task: if unadvertised == incr + self.unadvertised_send_window {
                        self.send_task
                    } else {
                        None
                    },
                    ..self
                }
            },
            None => self,
        }
    }

    /// Whether a stream in the queue stays there when the connection's
    /// window has grown: it does while a part of its window is uncovered and
    /// it can still send.
    pub open spec fn keeps_waiting(self) -> bool {
        self.unadvertised_send_window != 0 && self.state.send_flow().is_some()
    }

    /// The record of a queued stream after the connection's window has grown
    /// to `connection` free bytes. A stream that leaves the queue loses its
    /// mark. One that the connection now covers further has its uncovered
    /// part lowered, to zero if all is covered, and its task woken.
    pub open spec fn capacity_assigned(self, connection: int) -> Stream {
        if !self.keeps_waiting() {
            Stream { is_pending_send_capacity: false, ..self }
        } else {
            let effective = self.state.send_flow().unwrap().effective();
            if connection <= effective - self.unadvertised_send_window {
                self
            } else {
                Stream {
                    unadvertised_send_window: if connection >= effective {
                        0
                    } else {
                        (effective - connection) as WindowSize
                    },
                    send_task: None,
                    ..self
                }
            }
        }
    }

    /// Whether the stream's window can be lowered by `dec` bytes.
    pub open spec fn can_shrink(self, dec: int) -> bool {
        match self.state.send_flow() {
            Some(flow) => flow.can_shrink(dec),
            None => true,
        }
    }

    /// The record after the peer lowered the initial window size by `dec`
    /// bytes: the window is lowered by as much, and so is the uncovered
    /// part, down to zero. A stream that cannot send stays as it is.
    pub open spec fn lowered(self, dec: int) -> Stream {
        match self.state.send_flow() {
            Some(flow) => Stream {
                state: self.state.with_send_flow(flow.shrunk(dec)),
                unadvertised_send_window: if self.unadvertised_send_window < dec {
                    0
                } else {
                    (self.unadvertised_send_window - dec) as WindowSize
                },
                ..self
            },
            None => self,
        }
    }

    /// Whether the stream's window can follow a change of the initial
    /// window size from `from` to `to`.
    pub open spec fn can_resize(self, from: int, to: int) -> bool {
        if to < from {
            self.can_shrink(from - to)
        } else {
            self.can_expand(to - from)
        }
    }

    /// The record after the peer changed the initial window size from `from`
    /// to `to`, with `connection` bytes free on the connection. The stream's
    /// window moves by the difference: lowering it is [`Stream::lowered`],
    /// raising it is a grant of the difference, [`Stream::granted`].
    pub open spec fn resized(self, from: int, to: int, connection: int) -> Stream {
        if to < from {
            self.lowered(from - to)
        } else if to > from {
            self.granted(to - from, connection)
        } else {
            self
        }
    }

    /// The record after a DATA frame of `sz` bytes was accepted for sending,
    /// the last of the stream if `eos` is set.
    pub open spec fn data_sent(self, sz: int, eos: bool) -> Stream {
        let taken = self.claimed(sz);
        if eos && taken.state.send_closed().is_some() {
            Stream { state: taken.state.send_closed().unwrap(), ..taken }
        } else {
            taken
        }
    }

    pub fn new(id: StreamId) -> (stream: Stream)
        ensures
            stream == Stream::fresh(id),
            stream.wf(),
    {
        Stream {
            id,
            state: State::Idle,
            unadvertised_send_window: 0,
            send_task: None,
            is_pending_send_capacity: false,
            next_capacity: None,
        }
    }

    /// The stream's window for sending, to read and to change.
    pub fn send_flow_control(&mut self) -> (r: Option<&mut FlowControl>)
        ensures
            match r {
                Some(flow) => old(self).state.send_flow() == Some(*flow) && *final(self) == (
                Stream { state: old(self).state.with_send_flow(*final(flow)), ..*old(self) }),
                None => old(self).state.send_flow().is_none() && *final(self) == *old(self),
            },
    {
        self.state.send_flow_control()
    }

    /// Wakes the task that waits to send on the stream, if there is one.
    pub fn notify_send(&mut self)
        ensures
            *final(self) == old(self).notified(),
    {
        if let Some(task) = self.send_task.take() {
            notify(task);
        }
    }

    /// Takes `sz` bytes of data from the stream's window. The bytes must fit
    /// beside the part of the window that the connection does not cover.
    pub fn claim_capacity(&mut self, sz: usize) -> (r: Result<(), ConnectionError>)
        requires
            old(self).wf(),
        ensures
            final(self).wf(),
            match old(self).claim_error(sz as int) {
                Some(e) => r == Err::<(), ConnectionError>(e) && *final(self) == *old(self),
                None => r == Ok::<(), ConnectionError>(()) && *final(self) == old(self).claimed(
                    sz as int,
                ),
            },
    {
        let unadvertised: WindowSize = self.unadvertised_send_window;
        let closed: bool = self.state.is_closed();
        match self.state.send_flow_control() {
            Some(flow) => {
                if sz > MAX_WINDOW_SIZE as usize {
                    // More than any window holds.
                    return Err(ConnectionError::User(User::FlowControlViolation));
                }
                // Ensure that the size fits within the advertised size
                match flow.ensure_window(sz as u64 + unadvertised as u64, User::FlowControlViolation) {
                    Ok(()) => {},
                    Err(e) => {
                        return Err(e);
                    },
                }
                // Now, claim the window on the stream
                flow.claim_window(sz as u32, User::FlowControlViolation)
            },
            None => {
                if closed {
                    Err(ConnectionError::User(User::InactiveStreamId))
                } else {
                    Err(ConnectionError::User(User::UnexpectedFrameType))
                }
            },
        }
    }

    /// Tells whether the stream's window can follow a change of the initial
    /// window size from `from` to `to`.
    pub fn fits_resize(&self, from: WindowSize, to: WindowSize) -> (b: bool)
        requires
            self.wf(),
            0 <= from,
            0 <= to,
        ensures
            b == self.can_resize(from as int, to as int),
    {
        match self.state.send_window() {
            Some(flow) => {
                let moved: i64 = flow.effective_window_size() as i64 + (to as i64 - from as i64);
                MIN_WINDOW_SIZE as i64 <= moved && moved <= MAX_WINDOW_SIZE as i64
            },
            None => true,
        }
    }

    /// Lowers the stream's window by `dec` bytes, and the part that the
    /// connection does not cover by as much, down to zero.
    pub fn lower_window(&mut self, dec: u32)
        requires
            old(self).wf(),
            old(self).can_shrink(dec as int),
        ensures
            final(self).wf(),
            *final(self) == old(self).lowered(dec as int),
    {
        match self.state.send_flow_control() {
            Some(flow) => {
                let lowered = flow.shrink_window(dec);
                assert(lowered.is_ok());
            },
            None => {
                return ;
            },
        }
        // Update the unadvertised number as well
        if (self.unadvertised_send_window as i64) < dec as i64 {
            self.unadvertised_send_window = 0;
        } else {
            self.unadvertised_send_window = self.unadvertised_send_window - dec as WindowSize;
        }
    }

    /// Looks at a queued stream after the connection's window has grown to
    /// `connection` free bytes, and tells whether it stays in the queue.
    pub fn assign_capacity(&mut self, connection: WindowSize) -> (keep: bool)
        requires
            old(self).wf(),
            0 <= connection,
        ensures
            final(self).wf(),
            keep == old(self).keeps_waiting(),
            *final(self) == old(self).capacity_assigned(connection as int),
    {
        let unadvertised: WindowSize = self.unadvertised_send_window;
        if unadvertised == 0 {
            self.is_pending_send_capacity = false;
            return false;
        }
        let effective: WindowSize = match self.state.send_flow_control() {
            Some(flow) => flow.effective_window_size(),
            None => {
                // The stream can no longer send: it waits for nothing.
                self.is_pending_send_capacity = false;
                return false;
            },
        };
        if connection as i64 <= effective as i64 - unadvertised as i64 {
            // Nothing more is covered, but later growth may do so.
            return true;
        }
        if connection >= effective {
            self.unadvertised_send_window = 0;
        } else {
            self.unadvertised_send_window = effective - connection;
        }
        self.notify_send();
        true
    }
}

/// A grant that the connection covers raises what the stream may send by
/// the grant, and wakes the stream's task. This holds while the stream's window is not in debt beyond the
/// part that the connection does not cover; a window in debt is paid off
/// first.
pub proof fn lemma_covered_grant(stream: Stream, incr: int, connection: int)
    requires
        stream.wf(),
        0 <= incr,
        stream.state.send_flow().is_some(),
        stream.can_expand(incr),
        !stream.is_short(incr, connection),
        stream.state.send_flow().unwrap().effective() >= stream.unadvertised_send_window || incr
            == 0,
    ensures
        stream.granted(incr, connection).wf(),
        stream.granted(incr, connection).sendable() == stream.sendable() + incr,
        incr > 0 ==> stream.granted(incr, connection).send_task.is_none(),
{
}

/// Asking what a stream may send changes nothing about the answer: asking
/// again gives the same number.
pub proof fn lemma_observing_twice(stream: Stream, first: Task, second: Task)
    requires
        stream.wf(),
    ensures
        stream.observed(first).wf(),
        stream.observed(first).sendable() == stream.sendable(),
        stream.observed(first).observed(second).sendable() == stream.sendable(),
        stream.observed(first).observed(second) == stream.observed(second),
{
}

/// Lowering the initial window size by `dec` lowers the window of a stream
/// that can send by exactly `dec`, into debt if need be. The stream may
/// send no more than before.
pub proof fn lemma_lowered_window(stream: Stream, dec: int)
    requires
        stream.wf(),
        0 <= dec,
        stream.can_shrink(dec),
    ensures
        stream.lowered(dec).wf(),
        stream.lowered(dec).sendable() <= stream.sendable(),
        stream.state.send_flow().is_some() ==> stream.lowered(dec).state.send_flow().is_some()
            && stream.lowered(dec).state.send_flow().unwrap().effective()
            == stream.state.send_flow().unwrap().effective() - dec,
        stream.state.send_flow().is_none() ==> stream.lowered(dec) == stream,
{
}

/// No more data is accepted than the stream may send. A stream whose
/// window is in debt accepts none until grants have paid the debt off.
pub proof fn lemma_claim_within_sendable(stream: Stream, sz: int)
    requires
        stream.wf(),
        0 <= sz,
        stream.claim_error(sz).is_none(),
    ensures
        sz <= stream.sendable(),
        sz > 0 ==> stream.state.send_flow().unwrap().effective() > 0,
        stream.claimed(sz).wf(),
        stream.claimed(sz).sendable() == stream.sendable() - sz,
{
}

} // verus!
