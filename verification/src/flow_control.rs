//! The flow-control window of one stream, or of the connection.

use vstd::prelude::*;
use crate::error::{ConnectionError, Reason, User};

verus! {

/// A window size. Increments are never negative, but a window becomes
/// negative when the peer lowers the initial window size below what has
/// already been sent.
pub type WindowSize = i32;

/// The largest window that the protocol allows, 2^31 - 1.
pub const MAX_WINDOW_SIZE: WindowSize = 0x7fff_ffff;

pub const MIN_WINDOW_SIZE: WindowSize = -0x8000_0000;

#[derive(Clone, Copy, Debug, PartialEq, Eq, Structural)]
pub struct FlowControl {
    /// The amount that may be claimed. Negative while the sender owes bytes
    /// to a window that was shrunk.
    pub window_size: WindowSize,
    /// The amount that the peer has granted and that has not yet been added
    /// to `window_size`.
    pub next_window_update: WindowSize,
}

impl FlowControl {
    /// The window never exceeds the protocol's maximum, and no grant waits
    /// while the window is in debt.
    pub open spec fn wf(self) -> bool {
        &&& 0 <= self.next_window_update
        &&& self.window_size + self.next_window_update <= MAX_WINDOW_SIZE
        &&& self.window_size < 0 ==> self.next_window_update == 0
    }

    /// The window with the waiting grants counted in.
    pub open spec fn effective(self) -> int {
        self.window_size + self.next_window_update
    }

    /// Whether a grant of `sz` keeps the window within the protocol's maximum.
    pub open spec fn can_expand(self, sz: int) -> bool {
        self.effective() + sz <= MAX_WINDOW_SIZE
    }

    /// The window after a grant of `sz`: a debt is paid off first, the rest
    /// waits to be applied.
    pub open spec fn expanded(self, sz: int) -> FlowControl {
        let window: int = if self.window_size < 0 && self.window_size + sz < 0 {
            self.window_size + sz
        } else if self.window_size < 0 {
            0
        } else {
            self.window_size as int
        };
        FlowControl {
            window_size: window as WindowSize,
            next_window_update: (self.effective() + sz - window) as WindowSize,
        }
    }

    /// Whether the window can be lowered by `sz` and still be represented.
    pub open spec fn can_shrink(self, sz: int) -> bool {
        MIN_WINDOW_SIZE <= self.effective() - sz
    }

    /// The window lowered by `sz`: waiting grants are withdrawn first, the
    /// rest is taken from what may be claimed, which may go into debt.
    pub open spec fn shrunk(self, sz: int) -> FlowControl {
        let waiting: int = if sz < self.next_window_update {
            self.next_window_update - sz
        } else {
            0
        };
        FlowControl {
            window_size: (self.effective() - sz - waiting) as WindowSize,
            next_window_update: waiting as WindowSize,
        }
    }

    /// The window after `sz` bytes were claimed from it.
    pub open spec fn claimed(self, sz: int) -> FlowControl {
        FlowControl { window_size: (self.window_size - sz) as WindowSize, ..self }
    }

    /// The window with the waiting grants added to what may be claimed.
    pub open spec fn applied(self) -> FlowControl {
        FlowControl { window_size: self.effective() as WindowSize, next_window_update: 0 }
    }

    pub fn new(window_size: WindowSize) -> (flow: FlowControl)
        ensures
            flow == (FlowControl { window_size, next_window_update: 0 }),
            flow.wf(),
    {
        FlowControl { window_size, next_window_update: 0 }
    }

    /// Returns true if there is room left to send.
    pub fn has_capacity(&self) -> (b: bool)
        requires
            self.wf(),
        ensures
            b == (self.effective() > 0),
    {
        self.effective_window_size() > 0
    }

    pub fn effective_window_size(&self) -> (sz: WindowSize)
        requires
            self.wf(),
        ensures
            sz == self.effective(),
    {
        self.window_size + self.next_window_update
    }

    /// Succeeds if and only if `sz` bytes could be claimed now.
    pub fn ensure_window(&self, sz: u64, err: User) -> (r: Result<(), ConnectionError>)
        ensures
            sz <= self.window_size ==> r == Ok::<(), ConnectionError>(()),
            sz > self.window_size ==> r == Err::<(), ConnectionError>(ConnectionError::User(err)),
    {
        if self.window_size >= 0 && sz <= self.window_size as u64 {
            Ok(())
        } else {
            Err(ConnectionError::User(err))
        }
    }

    /// Takes `sz` bytes from the window if it holds that many. Grants that
    /// have not been applied do not count.
    pub fn claim_window(&mut self, sz: u32, err: User) -> (r: Result<(), ConnectionError>)
        requires
            old(self).wf(),
        ensures
            final(self).wf(),
            sz <= old(self).window_size ==> r == Ok::<(), ConnectionError>(()) && *final(self)
                == old(self).claimed(sz as int),
            sz > old(self).window_size ==> r == Err::<(), ConnectionError>(
                ConnectionError::User(err),
            ) && *final(self) == *old(self),
    {
        if self.window_size >= 0 && sz <= self.window_size as u32 {
            self.window_size = self.window_size - sz as WindowSize;
            Ok(())
        } else {
            Err(ConnectionError::User(err))
        }
    }

    /// Records a grant of `sz` bytes by the peer. A grant that would take
    /// the window over the protocol's maximum is a flow-control error and
    /// leaves the window as it was.
    pub fn expand_window(&mut self, sz: u32) -> (r: Result<(), Reason>)
        requires
            old(self).wf(),
        ensures
            final(self).wf(),
            old(self).can_expand(sz as int) ==> r == Ok::<(), Reason>(()) && *final(self) == old(
                self,
            ).expanded(sz as int),
            !old(self).can_expand(sz as int) ==> r == Err::<(), Reason>(Reason::FlowControlError)
                && *final(self) == *old(self),
    {
        let grown: i64 = self.window_size as i64 + self.next_window_update as i64 + sz as i64;
        if grown > MAX_WINDOW_SIZE as i64 {
            return Err(Reason::FlowControlError);
        }
        if self.window_size < 0 {
            if grown < 0 {
                self.window_size = grown as WindowSize;
            } else {
                self.window_size = 0;
                self.next_window_update = grown as WindowSize;
            }
        } else {
            self.next_window_update = (grown - self.window_size as i64) as WindowSize;
        }
        Ok(())
    }

    /// Lowers the window by `sz` bytes, into debt if need be. A window that
    /// would fall below what a `WindowSize` holds is a flow-control error and
    /// stays as it was.
    pub fn shrink_window(&mut self, sz: u32) -> (r: Result<(), Reason>)
        requires
            old(self).wf(),
        ensures
            final(self).wf(),
            old(self).can_shrink(sz as int) ==> r == Ok::<(), Reason>(()) && *final(self) == old(
                self,
            ).shrunk(sz as int),
            !old(self).can_shrink(sz as int) ==> r == Err::<(), Reason>(Reason::FlowControlError)
                && *final(self) == *old(self),
    {
        let lowered: i64 = self.window_size as i64 + self.next_window_update as i64 - sz as i64;
        if lowered < MIN_WINDOW_SIZE as i64 {
            return Err(Reason::FlowControlError);
        }
        if (sz as i64) < self.next_window_update as i64 {
            self.next_window_update = self.next_window_update - sz as WindowSize;
        } else {
            self.next_window_update = 0;
            self.window_size = lowered as WindowSize;
        }
        Ok(())
    }

    /// Adds the waiting grants to what may be claimed, and returns their
    /// amount if there were any.
    pub fn apply_window_update(&mut self) -> (incr: Option<WindowSize>)
        requires
            old(self).wf(),
        ensures
            final(self).wf(),
            *final(self) == old(self).applied(),
            old(self).next_window_update == 0 ==> incr.is_none(),
            old(self).next_window_update != 0 ==> incr == Some(old(self).next_window_update),
    {
        if self.next_window_update == 0 {
            return None;
        }
        let incr: WindowSize = self.next_window_update;
        self.next_window_update = 0;
        self.window_size = self.window_size + incr;
        Some(incr)
    }
}

/// A grant raises the window by its amount, and lowering takes as much away.
pub proof fn lemma_effective_after(flow: FlowControl, sz: int)
    requires
        flow.wf(),
        0 <= sz,
    ensures
        flow.can_expand(sz) ==> flow.expanded(sz).wf() && flow.expanded(sz).effective()
            == flow.effective() + sz,
        flow.can_shrink(sz) ==> flow.shrunk(sz).wf() && flow.shrunk(sz).effective()
            == flow.effective() - sz,
        flow.applied().wf() && flow.applied().effective() == flow.effective(),
        sz <= flow.window_size ==> flow.claimed(sz).wf() && flow.claimed(sz).effective()
            == flow.effective() - sz,
{
}

} // verus!
