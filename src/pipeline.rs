//! The decisions of the decode/write pipeline. The threads, the byte source
//! and the bounded queue that connects the two sides are run by the
//! application.
use vstd::prelude::*;
use crate::frame::Frame;
use crate::input::ReadError;

verus! {

/// Capacity of the queue between the decode side and the write side; a full
/// queue stops the decode side until the write side catches up.
pub const QUEUE_CAPACITY: usize = 10;

/// What the decode side does with one record it read, or with the error
/// that ended reading.
#[derive(Debug)]
pub enum DecodeAction {
    /// Push the record onto the queue.
    Forward(Frame),
    /// A database version record: logged, not forwarded.
    Skip { version: u32 },
    /// The end record was read: close the queue.
    Finish,
    /// A fatal error: close the queue and report it.
    Fail(ReadError),
}

/// Decides what the decode side does with the outcome of reading one record.
pub fn decode_action(read: Result<Frame, ReadError>) -> (r: DecodeAction)
    ensures
        read matches Ok(Frame::End) <==> r is Finish,
        read matches Err(e) ==> r == DecodeAction::Fail(e),
        read matches Ok(Frame::Version { version }) ==> (r == (DecodeAction::Skip { version })),
        read matches Ok(f) ==> (!(f is Version || f is End) ==> r == DecodeAction::Forward(f)),
{
    match read {
        Ok(Frame::End) => DecodeAction::Finish,
        Ok(Frame::Version { version }) => DecodeAction::Skip { version },
        Ok(f) => DecodeAction::Forward(f),
        Err(e) => DecodeAction::Fail(e),
    }
}

} // verus!
