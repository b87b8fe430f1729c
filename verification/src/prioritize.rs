//! The frames that wait to be written, and the connection's window.
//!
//! Frames leave in the order in which they came. A DATA frame leaves only
//! when the connection's window holds its payload.

use vstd::prelude::*;
use std::collections::VecDeque;
use crate::config::Config;
use crate::error::{ConnectionError, Reason, User};
use crate::flow_control::{FlowControl, WindowSize};
use crate::frame::{Frame, WindowUpdate};
use crate::store::Key;

verus! {

/// A frame in the queue, with the key of its stream.
#[derive(Debug)]
pub struct Prioritized {
    pub key: Key,
    pub frame: Frame,
}

pub struct Prioritize {
    /// The connection's window.
    pub flow_control: FlowControl,
    /// The payload bytes of the DATA frames in the queue.
    pub buffered_data: u128,
    pub pending_send: VecDeque<Prioritized>,
}

/// The payload bytes of the DATA frames among `frames`.
pub open spec fn queued_bytes(frames: Seq<Prioritized>) -> nat
    decreases frames.len(),
{
    if frames.len() == 0 {
        0
    } else {
        queued_bytes(frames.drop_last()) + frames.last().frame.flow_len()
    }
}

impl View for Prioritize {
    type V = Seq<Prioritized>;

    open spec fn view(&self) -> Seq<Prioritized> {
        self.pending_send@
    }
}

impl Prioritize {
    pub open spec fn wf(&self) -> bool {
        &&& self.flow_control.wf()
        &&& self.flow_control.next_window_update == 0
        &&& self.buffered_data == queued_bytes(self@)
        &&& forall|i: int| 0 <= i < self@.len() ==> (#[trigger] self@[i]).frame.flow_len() <= usize::MAX
    }

    /// The part of the connection's window that queued data has not taken.
    pub open spec fn available(&self) -> int {
        if self.flow_control.effective() > self.buffered_data {
            self.flow_control.effective() - self.buffered_data
        } else {
            0
        }
    }

    /// The queue after the peer granted the connection `incr` more bytes.
    pub open spec fn granted(self, incr: int) -> Prioritize {
        Prioritize { flow_control: self.flow_control.expanded(incr).applied(), ..self }
    }

    /// Whether `self` is `before` with `frame` added at the end of the queue.
    pub open spec fn has_queued(&self, before: &Prioritize, key: Key, frame: Frame) -> bool {
        &&& self.flow_control == before.flow_control
        &&& self@ == before@.push(Prioritized { key, frame })
        &&& self.buffered_data == before.buffered_data + frame.flow_len()
    }

    /// Whether the first frame of the queue may be written now.
    pub open spec fn is_ready(&self) -> bool {
        self@.len() > 0 && self@[0].frame.flow_len() <= self.flow_control.window_size
    }

    pub fn new(config: &Config) -> (prioritize: Prioritize)
        ensures
            prioritize.wf(),
            prioritize@ == Seq::<Prioritized>::empty(),
            prioritize.buffered_data == 0,
            prioritize.flow_control == (FlowControl {
                window_size: config.init_local_window_sz,
                next_window_update: 0,
            }),
    {
        Prioritize {
            flow_control: FlowControl::new(config.init_local_window_sz),
            buffered_data: 0,
            pending_send: VecDeque::new(),
        }
    }

    pub fn available_window(&self) -> (sz: WindowSize)
        requires
            self.wf(),
        ensures
            sz == self.available(),
            0 <= sz,
    {
        let win: WindowSize = self.flow_control.effective_window_size();
        if win <= 0 || self.buffered_data >= win as u128 {
            0
        } else {
            win - self.buffered_data as WindowSize
        }
    }

    /// The peer grants the connection more window. The grant counts at once.
    pub fn recv_window_update(&mut self, frame: WindowUpdate) -> (r: Result<(), ConnectionError>)
        requires
            old(self).wf(),
        ensures
            final(self).wf(),
            old(self).flow_control.can_expand(frame.size_increment as int) ==> r == Ok::<
                (),
                ConnectionError,
            >(()) && *final(self) == old(self).granted(frame.size_increment as int),
            !old(self).flow_control.can_expand(frame.size_increment as int) ==> r == Err::<
                (),
                ConnectionError,
            >(ConnectionError::Proto(Reason::FlowControlError)) && *final(self) == *old(self),
    {
        match self.flow_control.expand_window(frame.size_increment()) {
            Ok(()) => {
                self.flow_control.apply_window_update();
                Ok(())
            },
            Err(reason) => Err(ConnectionError::Proto(reason)),
        }
    }

    /// Adds a frame at the end of the queue.
    pub fn queue_frame(&mut self, frame: Frame, key: Key)
        requires
            old(self).wf(),
        ensures
            final(self).wf(),
            final(self).has_queued(old(self), key, frame),
    {
        let len: usize = frame.len();
        let queued: usize = self.pending_send.len();
        proof {
            lemma_queued_bytes_bound(self@);
            assert(self@.len() == queued);
            assert(self@.len() * usize::MAX + len <= u128::MAX) by (nonlinear_arith)
                requires
                    self@.len() <= usize::MAX,
                    len <= usize::MAX,
                    usize::MAX <= 0xffff_ffff_ffff_ffff,
            ;
            assert(self@.push(Prioritized { key, frame }).drop_last() =~= self@);
        }
        self.buffered_data = self.buffered_data + len as u128;
        self.pending_send.push_back(Prioritized { key, frame });
    }

    /// Takes the first frame from the queue if it may be written now: any
    /// frame but a DATA frame that is larger than the connection's window.
    /// The payload of a DATA frame is taken from that window.
    pub fn pop_frame(&mut self) -> (r: Option<Prioritized>)
        requires
            old(self).wf(),
        ensures
            final(self).wf(),
            match r {
                Some(first) => {
                    &&& old(self).is_ready()
                    &&& first == old(self)@[0]
                    &&& final(self)@ == old(self)@.subrange(1, old(self)@.len() as int)
                    &&& final(self).flow_control == old(self).flow_control.claimed(
                        first.frame.flow_len() as int,
                    )
                    &&& final(self).buffered_data == old(self).buffered_data
                        - first.frame.flow_len()
                },
                None => !old(self).is_ready() && *final(self) == *old(self),
            },
    {
        if self.pending_send.len() == 0 {
            return None;
        }
        let len: usize = self.pending_send[0].frame.len();
        if self.flow_control.window_size < 0 || len as u128 > self.flow_control.window_size as u128 {
            return None;
        }
        proof {
            lemma_queued_bytes_first(self@);
            assert forall|i: int| 0 <= i < self@.len() - 1 implies (#[trigger] self@.subrange(
                1,
                self@.len() as int,
            )[i]).frame.flow_len() <= usize::MAX by {
                assert(self@.subrange(1, self@.len() as int)[i] == self@[i + 1]);
            }
        }
        let claimed = self.flow_control.claim_window(len as u32, User::FlowControlViolation);
        assert(claimed.is_ok());
        self.buffered_data = self.buffered_data - len as u128;
        self.pending_send.pop_front()
    }
}

/// Every frame in the queue holds at most `usize::MAX` payload bytes, so
/// the sum is at most that many times the number of frames.
pub proof fn lemma_queued_bytes_bound(frames: Seq<Prioritized>)
    requires
        forall|i: int| 0 <= i < frames.len() ==> (#[trigger] frames[i]).frame.flow_len() <= usize::MAX,
    ensures
        queued_bytes(frames) <= frames.len() * usize::MAX,
    decreases frames.len(),
{
    if frames.len() > 0 {
        let rest = frames.drop_last();
        assert forall|i: int| 0 <= i < rest.len() implies (#[trigger] rest[i]).frame.flow_len()
            <= usize::MAX by {
            assert(rest[i] == frames[i]);
        }
        lemma_queued_bytes_bound(rest);
        assert(frames.last() == frames[frames.len() - 1]);
        assert(rest.len() * usize::MAX + usize::MAX == frames.len() * usize::MAX)
            by (nonlinear_arith)
            requires
                rest.len() + 1 == frames.len(),
        ;
    }
}

/// The sum counted from the front: the first frame and then the others.
pub proof fn lemma_queued_bytes_first(frames: Seq<Prioritized>)
    requires
        frames.len() > 0,
    ensures
        queued_bytes(frames) == frames[0].frame.flow_len() + queued_bytes(
            frames.subrange(1, frames.len() as int),
        ),
    decreases frames.len(),
{
    let tail = frames.subrange(1, frames.len() as int);
    if frames.len() == 1 {
        assert(frames.drop_last() =~= Seq::<Prioritized>::empty());
        assert(tail =~= Seq::<Prioritized>::empty());
        assert(queued_bytes(frames.drop_last()) == 0);
    } else {
        let rest = frames.drop_last();
        lemma_queued_bytes_first(rest);
        assert(rest.subrange(1, rest.len() as int) =~= tail.drop_last());
        assert(tail.last() == frames.last());
        assert(rest[0] == frames[0]);
    }
}

} // verus!
