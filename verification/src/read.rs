//! Reading typed values from a stream.

use crate::frame::{default_byte_limit, frame_reading, FrameError};
use crate::wire::Wire;
use vstd::prelude::*;

verus! {

/// A stream that typed values can be read from, each from one frame.
pub trait ChatReader {
    /// The bytes that have arrived and have not been read yet.
    spec fn unread(&self) -> Seq<u8>;

    /// Whether the stream has ended, so that no more bytes will arrive.
    spec fn ended(&self) -> bool;

    /// Reads one value from the stream. The bytes of its frame leave the
    /// stream; where no value can be read, the stream is left as it was.
    fn read_data<T: Wire>(&mut self) -> (r: Result<T, FrameError>)
        ensures
            match frame_reading::<T>(old(self).unread(), default_byte_limit(), old(self).ended()) {
                Ok((value, used)) => r matches Ok(read) && read.model() == value
                    && final(self).unread() == old(self).unread().skip(used),
                Err(error) => r matches Err(reason) && reason == error && final(self).unread()
                    == old(self).unread(),
            },
            final(self).ended() == old(self).ended(),
    ;

    /// The greatest size of a frame's content, in bytes.
    fn byte_limit() -> (r: u64)
        ensures
            r == default_byte_limit(),
    {
        4000
    }
}

} // verus!
