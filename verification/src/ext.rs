//! The calls into `bytes` and `futures`. Verus takes the contracts in this
//! file on trust; everything else in the crate is proved from them.

use vstd::prelude::*;

verus! {

/// `futures::task::Task`, a handle by which a parked task is woken. Verus
/// sees nothing inside it.
#[verifier::external_type_specification]
#[verifier::external_body]
pub struct ExTask(futures::task::Task);

/// `bytes::Bytes`, a buffer of bytes. Verus sees nothing inside it; what it
/// holds is named by [`bytes_contents`].
#[verifier::external_type_specification]
#[verifier::external_body]
pub struct ExBytes(bytes::Bytes);

/// The bytes that a `Bytes` holds.
pub uninterp spec fn bytes_contents(buf: bytes::Bytes) -> Seq<u8>;

/// Calls `Buf::remaining` on a `Bytes`, which returns the number of bytes
/// that the buffer holds. Trusted: the result is the length of the contents.
#[verifier::external_body]
pub(crate) fn remaining(buf: &bytes::Bytes) -> (n: usize)
    ensures
        n == bytes_contents(*buf).len(),
{
    bytes::Buf::remaining(buf)
}

/// Calls `Task::notify`, which tells the executor to poll the task again.
/// Trusted: the call returns. Nothing is claimed of its effect.
#[verifier::external_body]
pub(crate) fn notify(task: futures::task::Task) {
    task.notify()
}

} // verus!
