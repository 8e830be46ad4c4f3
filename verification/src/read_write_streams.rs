//! Streams of bytes in memory, and the pair of them that makes up a
//! connection.
//!
//! A `ByteStream` holds bytes on their way: what arrived from the peer and
//! was not read yet, or what was written and was not sent yet. Moving bytes
//! between a stream and a socket is left to the caller.

use crate::frame::{read_frame, write_frame, FrameError};
use crate::read::ChatReader;
use crate::wire::Wire;
use crate::write::ChatWriter;
use vstd::prelude::*;
use vstd::slice::{slice_subrange, slice_to_vec};

verus! {

/// Bytes on their way in one direction.
#[derive(Debug, PartialEq, Eq)]
pub struct ByteStream {
    bytes: Vec<u8>,
    ended: bool,
}

impl View for ByteStream {
    type V = Seq<u8>;

    /// The bytes that the stream holds, oldest first.
    closed spec fn view(&self) -> Seq<u8> {
        self.bytes@
    }
}

impl Default for ByteStream {
    /// The open stream that holds nothing.
    fn default() -> (r: Self)
        ensures
            r@ == Seq::<u8>::empty(),
            !r.is_ended(),
    {
        ByteStream { bytes: Vec::new(), ended: false }
    }
}

impl ByteStream {
    /// Whether the stream has ended.
    pub closed spec fn spec_is_ended(&self) -> bool {
        self.ended
    }

    /// The open stream that holds nothing.
    pub fn new() -> (r: Self)
        ensures
            r@ == Seq::<u8>::empty(),
            !r.is_ended(),
    {
        ByteStream { bytes: Vec::new(), ended: false }
    }

    /// Whether the stream has ended.
    #[verifier::when_used_as_spec(spec_is_ended)]
    pub fn is_ended(&self) -> (r: bool)
        ensures
            r == self.is_ended(),
    {
        self.ended
    }

    /// The number of bytes that the stream holds.
    pub fn len(&self) -> (r: usize)
        ensures
            r == self@.len(),
    {
        self.bytes.len()
    }

    /// Adds bytes that arrived to the end of the stream.
    pub fn feed(&mut self, bytes: &[u8])
        ensures
            final(self)@ == old(self)@ + bytes@,
            final(self).is_ended() == old(self).is_ended(),
    {
        let mut more = slice_to_vec(bytes);
        self.bytes.append(&mut more);
    }

    /// Marks the end of the stream: no more bytes will arrive.
    pub fn end(&mut self)
        ensures
            final(self)@ == old(self)@,
            final(self).is_ended(),
    {
        self.ended = true;
    }

    /// Takes all bytes out of the stream, oldest first, to be sent.
    pub fn take(&mut self) -> (r: Vec<u8>)
        ensures
            r@ == old(self)@,
            final(self)@ == Seq::<u8>::empty(),
            final(self).is_ended() == old(self).is_ended(),
    {
        let mut taken: Vec<u8> = Vec::new();
        taken.append(&mut self.bytes);
        taken
    }
}

impl ChatWriter for ByteStream {
    open spec fn written(&self) -> Seq<u8> {
        self@
    }

    fn write_data<T: Wire>(&mut self, data: &T) -> (r: Result<(), FrameError>) {
        write_frame(data, <Self as ChatWriter>::byte_limit(), &mut self.bytes)
    }
}

impl ChatReader for ByteStream {
    open spec fn unread(&self) -> Seq<u8> {
        self@
    }

    open spec fn ended(&self) -> bool {
        self.is_ended()
    }

    fn read_data<T: Wire>(&mut self) -> (r: Result<T, FrameError>) {
        match read_frame::<T>(&self.bytes, <Self as ChatReader>::byte_limit(), self.ended) {
            Ok((value, end)) => {
                let rest = slice_to_vec(
                    slice_subrange(self.bytes.as_slice(), end, self.bytes.len()),
                );
                assert(rest@ =~= self.bytes@.skip(end as int));
                self.bytes = rest;
                Ok(value)
            },
            Err(error) => Err(error),
        }
    }
}

/// The two streams of a connection: one to read what the peer sent, one to
/// write what the peer is to get. Reading and writing do not touch each
/// other.
#[derive(Debug, PartialEq, Eq)]
pub struct ReadWriteStreams {
    pub read: ByteStream,
    pub write: ByteStream,
}

impl ReadWriteStreams {
    /// The connection on which nothing has arrived and nothing was written.
    pub fn new() -> (r: Self)
        ensures
            r.read@ == Seq::<u8>::empty(),
            r.write@ == Seq::<u8>::empty(),
            !r.read.is_ended(),
            !r.write.is_ended(),
    {
        ReadWriteStreams { read: ByteStream::new(), write: ByteStream::new() }
    }
}

impl ChatWriter for ReadWriteStreams {
    open spec fn written(&self) -> Seq<u8> {
        self.write@
    }

    fn write_data<T: Wire>(&mut self, data: &T) -> (r: Result<(), FrameError>)
        ensures
            final(self).read == old(self).read,
    {
        self.write.write_data(data)
    }
}

impl ChatReader for ReadWriteStreams {
    open spec fn unread(&self) -> Seq<u8> {
        self.read@
    }

    open spec fn ended(&self) -> bool {
        self.read.is_ended()
    }

    fn read_data<T: Wire>(&mut self) -> (r: Result<T, FrameError>)
        ensures
            final(self).write == old(self).write,
    {
        self.read.read_data()
    }
}

} // verus!
