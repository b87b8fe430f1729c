//! Send side of an HTTP/2 connection: admission of locally initiated streams,
//! flow-control bookkeeping for the connection and for each stream, and the
//! queue of streams that wait for connection capacity.
//!
//! Every executable function carries a contract that Verus proves. The few
//! calls into `bytes` and `futures` stand behind wrappers in [`ext`], whose
//! contracts are taken on trust.

pub mod config;
pub mod error;
pub mod flow_control;
pub mod ext;
pub mod frame;
pub mod prioritize;
pub mod send;
pub mod state;
pub mod store;
pub mod stream;
