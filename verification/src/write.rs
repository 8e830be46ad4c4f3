//! Writing typed values to a stream.

use crate::frame::{default_byte_limit, frame, FrameError};
use crate::wire::Wire;
use vstd::prelude::*;

verus! {

/// A stream that typed values can be written to, each as one frame.
pub trait ChatWriter {
    /// The bytes that were written to the stream and have not been taken
    /// from it yet.
    spec fn written(&self) -> Seq<u8>;

    /// Writes `data` to the stream as one frame. A value whose encoding is
    /// larger than the byte limit is turned down, and not one byte of it is
    /// written.
    fn write_data<T: Wire>(&mut self, data: &T) -> (r: Result<(), FrameError>)
        ensures
            match r {
                Ok(_) => T::encoding(data.model()).len() <= default_byte_limit() && final(self).written()
                    == old(self).written() + frame::<T>(data.model()),
                Err(error) => error == FrameError::SizeLimitExceeded && T::encoding(
                    data.model(),
                ).len() > default_byte_limit() && final(self).written() == old(self).written(),
            },
    ;

    /// The greatest size of a frame's content, in bytes.
    fn byte_limit() -> (r: u64)
        ensures
            r == default_byte_limit(),
    {
        4000
    }
}

} // verus!
