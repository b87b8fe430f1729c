//! The frames that the send side handles, reduced to the fields it reads.

use vstd::prelude::*;
use bytes::Bytes;
use crate::error::Reason;
use crate::ext::{bytes_contents, remaining};

verus! {

/// The identifier of a stream: 31 bits, odd when a client opened the stream
/// and even when a server did.
#[derive(Clone, Copy, Debug, PartialEq, Eq, Structural, Hash)]
pub struct StreamId(pub u32);

/// The largest identifier that a stream can have.
pub const MAX_STREAM_ID: u32 = 0x7fff_ffff;

impl StreamId {
    pub open spec fn is_valid(self) -> bool {
        self.0 <= MAX_STREAM_ID
    }

    /// Identifier zero names the connection as a whole.
    pub fn is_zero(&self) -> (b: bool)
        ensures
            b == (self.0 == 0),
    {
        self.0 == 0
    }
}

#[derive(Debug)]
pub struct Headers {
    pub stream_id: StreamId,
    /// The encoded header fields, carried through untouched.
    pub header_block: Bytes,
    pub end_stream: bool,
}

impl Headers {
    pub fn is_end_stream(&self) -> (b: bool)
        ensures
            b == self.end_stream,
    {
        self.end_stream
    }
}

#[derive(Debug)]
pub struct Data {
    pub stream_id: StreamId,
    pub payload: Bytes,
    pub end_stream: bool,
}

impl Data {
    /// The number of bytes that the frame takes from the flow-control windows.
    pub open spec fn flow_len(self) -> nat {
        bytes_contents(self.payload).len()
    }

    pub fn is_end_stream(&self) -> (b: bool)
        ensures
            b == self.end_stream,
    {
        self.end_stream
    }

    pub fn payload(&self) -> (payload: &Bytes)
        ensures
            *payload == self.payload,
    {
        &self.payload
    }

    pub fn len(&self) -> (n: usize)
        ensures
            n == self.flow_len(),
    {
        remaining(&self.payload)
    }
}

#[derive(Clone, Copy, Debug, PartialEq, Eq, Structural)]
pub struct Reset {
    pub stream_id: StreamId,
    pub reason: Reason,
}

impl Reset {
    pub fn new(stream_id: StreamId, reason: Reason) -> (frame: Reset)
        ensures
            frame == (Reset { stream_id, reason }),
    {
        Reset { stream_id, reason }
    }
}

#[derive(Clone, Copy, Debug, PartialEq, Eq, Structural)]
pub struct WindowUpdate {
    /// Zero when the update is for the connection.
    pub stream_id: StreamId,
    pub size_increment: u32,
}

impl WindowUpdate {
    pub fn new(stream_id: StreamId, size_increment: u32) -> (frame: WindowUpdate)
        ensures
            frame == (WindowUpdate { stream_id, size_increment }),
    {
        WindowUpdate { stream_id, size_increment }
    }

    pub fn size_increment(&self) -> (incr: u32)
        ensures
            incr == self.size_increment,
    {
        self.size_increment
    }
}

/// The settings of the peer that bear on sending. A field is `None` where
/// the frame does not carry the setting.
#[derive(Clone, Copy, Debug, PartialEq, Eq, Structural)]
pub struct Settings {
    pub max_concurrent_streams: Option<u32>,
    pub initial_window_size: Option<u32>,
}

impl Settings {
    pub fn max_concurrent_streams(&self) -> (val: Option<u32>)
        ensures
            val == self.max_concurrent_streams,
    {
        self.max_concurrent_streams
    }

    pub fn initial_window_size(&self) -> (val: Option<u32>)
        ensures
            val == self.initial_window_size,
    {
        self.initial_window_size
    }
}

/// A frame that waits to be written.
#[derive(Debug)]
pub enum Frame {
    Headers(Headers),
    Data(Data),
    Reset(Reset),
}

impl Frame {
    /// The number of bytes that the frame takes from the flow-control
    /// windows: the payload of a DATA frame, nothing for the others.
    pub open spec fn flow_len(self) -> nat {
        match self {
            Frame::Data(data) => data.flow_len(),
            _ => 0,
        }
    }

    pub fn len(&self) -> (n: usize)
        ensures
            n == self.flow_len(),
    {
        match self {
            Frame::Data(data) => data.len(),
            _ => 0,
        }
    }
}

} // verus!
