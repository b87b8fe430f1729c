//! What a connection is set up with.

use vstd::prelude::*;
use crate::flow_control::WindowSize;

verus! {

/// Which end of the connection this is.
#[derive(Clone, Copy, Debug, PartialEq, Eq, Structural)]
pub enum Role {
    Client,
    Server,
}

impl Role {
    pub fn is_server(&self) -> (b: bool)
        ensures
            b == (*self == Role::Server),
    {
        match self {
            Role::Server => true,
            Role::Client => false,
        }
    }
}

#[derive(Clone, Copy, Debug, PartialEq, Eq, Structural)]
pub struct Config {
    /// The most streams that this endpoint may have open at a time, if the
    /// peer has set a limit.
    pub max_local_initiated: Option<usize>,
    /// The window that a stream starts with, which is also the window that
    /// the connection starts with.
    pub init_local_window_sz: WindowSize,
}

impl Config {
    /// A window starts out empty or larger, never in debt.
    pub open spec fn wf(self) -> bool {
        0 <= self.init_local_window_sz
    }
}

} // verus!
