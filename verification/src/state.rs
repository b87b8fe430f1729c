//! The protocol state of one stream, as far as sending drives it.

use vstd::prelude::*;
use crate::error::{ConnectionError, Reason, User};
use crate::flow_control::{FlowControl, WindowSize};

verus! {

/// One direction of an open stream.
#[derive(Clone, Copy, Debug, PartialEq, Eq, Structural)]
pub enum Peer {
    /// No HEADERS frame has gone in this direction yet.
    AwaitingHeaders,
    /// Data may flow, within the window.
    Streaming(FlowControl),
}

impl Peer {
    pub open spec fn wf(self) -> bool {
        match self {
            Peer::AwaitingHeaders => true,
            Peer::Streaming(flow) => flow.wf(),
        }
    }

    pub open spec fn flow(self) -> Option<FlowControl> {
        match self {
            Peer::AwaitingHeaders => None,
            Peer::Streaming(flow) => Some(flow),
        }
    }
}

#[derive(Clone, Copy, Debug, PartialEq, Eq, Structural)]
pub enum State {
    Idle,
    ReservedLocal,
    ReservedRemote,
    Open { local: Peer, remote: Peer },
    /// The local side has finished sending; the field is the remote side.
    HalfClosedLocal(Peer),
    /// The remote side has finished sending; the field is the local side.
    HalfClosedRemote(Peer),
    /// Closed, with the reason if the stream was reset.
    Closed(Option<Reason>),
}

impl State {
    pub open spec fn wf(self) -> bool {
        match self {
            State::Open { local, remote } => local.wf() && remote.wf(),
            State::HalfClosedLocal(remote) => remote.wf(),
            State::HalfClosedRemote(local) => local.wf(),
            _ => true,
        }
    }

    /// The window for sending. There is one exactly while the stream is open
    /// or half-closed by the remote side, and the local side has sent its
    /// headers.
    pub open spec fn send_flow(self) -> Option<FlowControl> {
        match self {
            State::Open { local, .. } => local.flow(),
            State::HalfClosedRemote(local) => local.flow(),
            _ => None,
        }
    }

    /// The state with `flow` in place of its window for sending.
    pub open spec fn with_send_flow(self, flow: FlowControl) -> State {
        match self {
            State::Open { local, remote } => State::Open { local: Peer::Streaming(flow), remote },
            State::HalfClosedRemote(_) => State::HalfClosedRemote(Peer::Streaming(flow)),
            _ => self,
        }
    }

    /// The state after HEADERS were sent, with a window of `sz` for what
    /// follows, or `None` where the stream cannot send headers.
    pub open spec fn send_opened(self, sz: WindowSize, eos: bool) -> Option<State> {
        let local = Peer::Streaming(FlowControl { window_size: sz, next_window_update: 0 });
        match self {
            State::Idle => Some(
                if eos {
                    State::HalfClosedLocal(Peer::AwaitingHeaders)
                } else {
                    State::Open { local, remote: Peer::AwaitingHeaders }
                },
            ),
            State::Open { local: Peer::AwaitingHeaders, remote } => Some(
                if eos {
                    State::HalfClosedLocal(remote)
                } else {
                    State::Open { local, remote }
                },
            ),
            State::HalfClosedRemote(Peer::AwaitingHeaders) => Some(
                if eos {
                    State::Closed(None)
                } else {
                    State::HalfClosedRemote(local)
                },
            ),
            _ => None,
        }
    }

    /// The state after the local side finished sending, or `None` where it
    /// has nothing to finish.
    pub open spec fn send_closed(self) -> Option<State> {
        match self {
            State::Open { remote, .. } => Some(State::HalfClosedLocal(remote)),
            State::HalfClosedRemote(_) => Some(State::Closed(None)),
            _ => None,
        }
    }

    /// Whether a reset may be sent: on every stream but an idle one.
    pub open spec fn can_reset(self) -> bool {
        !(self is Idle)
    }

    /// Sends the headers that open the local side of the stream.
    pub fn send_open(&mut self, sz: WindowSize, eos: bool) -> (r: Result<(), ConnectionError>)
        requires
            old(self).wf(),
        ensures
            final(self).wf(),
            match old(self).send_opened(sz, eos) {
                Some(next) => r == Ok::<(), ConnectionError>(()) && *final(self) == next,
                None => r == Err::<(), ConnectionError>(
                    ConnectionError::User(User::UnexpectedFrameType),
                ) && *final(self) == *old(self),
            },
    {
        let local = Peer::Streaming(FlowControl::new(sz));
        let next = match *self {
            State::Idle => {
                if eos {
                    State::HalfClosedLocal(Peer::AwaitingHeaders)
                } else {
                    State::Open { local, remote: Peer::AwaitingHeaders }
                }
            },
            State::Open { local: Peer::AwaitingHeaders, remote } => {
                if eos {
                    State::HalfClosedLocal(remote)
                } else {
                    State::Open { local, remote }
                }
            },
            State::HalfClosedRemote(Peer::AwaitingHeaders) => {
                if eos {
                    State::Closed(None)
                } else {
                    State::HalfClosedRemote(local)
                }
            },
            _ => {
                return Err(ConnectionError::User(User::UnexpectedFrameType));
            },
        };
        *self = next;
        Ok(())
    }

    /// Marks the end of what the local side sends.
    pub fn send_close(&mut self) -> (r: Result<(), ConnectionError>)
        requires
            old(self).wf(),
        ensures
            final(self).wf(),
            match old(self).send_closed() {
                Some(next) => r == Ok::<(), ConnectionError>(()) && *final(self) == next,
                None => r == Err::<(), ConnectionError>(
                    ConnectionError::Proto(Reason::ProtocolError),
                ) && *final(self) == *old(self),
            },
    {
        let next = match *self {
            State::Open { remote, .. } => State::HalfClosedLocal(remote),
            State::HalfClosedRemote(_) => State::Closed(None),
            _ => {
                return Err(ConnectionError::Proto(Reason::ProtocolError));
            },
        };
        *self = next;
        Ok(())
    }

    /// Closes the stream for the given reason. An idle stream cannot be
    /// reset.
    pub fn send_reset(&mut self, reason: Reason) -> (r: Result<(), ConnectionError>)
        requires
            old(self).wf(),
        ensures
            final(self).wf(),
            old(self).can_reset() ==> r == Ok::<(), ConnectionError>(()) && *final(self)
                == State::Closed(Some(reason)),
            !old(self).can_reset() ==> r == Err::<(), ConnectionError>(
                ConnectionError::Proto(Reason::ProtocolError),
            ) && *final(self) == *old(self),
    {
        match *self {
            State::Idle => Err(ConnectionError::Proto(Reason::ProtocolError)),
            _ => {
                *self = State::Closed(Some(reason));
                Ok(())
            },
        }
    }

    pub fn is_closed(&self) -> (b: bool)
        ensures
            b == (self is Closed),
    {
        match self {
            State::Closed(_) => true,
            _ => false,
        }
    }

    /// A copy of the window for sending.
    pub fn send_window(&self) -> (r: Option<FlowControl>)
        ensures
            r == self.send_flow(),
    {
        match self {
            State::Open { local: Peer::Streaming(flow), .. } => Some(*flow),
            State::HalfClosedRemote(Peer::Streaming(flow)) => Some(*flow),
            _ => None,
        }
    }

    /// The window for sending, to read and to change.
    pub fn send_flow_control(&mut self) -> (r: Option<&mut FlowControl>)
        ensures
            match r {
                Some(flow) => old(self).send_flow() == Some(*flow) && *final(self) == old(
                    self,
                ).with_send_flow(*final(flow)),
                None => old(self).send_flow().is_none() && *final(self) == *old(self),
            },
    {
        match self {
            State::Open { local: Peer::Streaming(flow), .. } => Some(flow),
            State::HalfClosedRemote(Peer::Streaming(flow)) => Some(flow),
            _ => None,
        }
    }
}

} // verus!
