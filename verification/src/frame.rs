//! Frames: how a typed value travels over a stream of bytes.

use crate::wire::{
    get_u64, lemma_assoc, lemma_take_more, lemma_u64_decoded, lemma_u64_round_trip, put_u64,
    u64_decoding, u64_encoding, Wire,
};
use vstd::prelude::*;
use vstd::slice::{slice_subrange, slice_to_vec};

verus! {

/// Why no frame could be read or written.
#[derive(Debug, Clone, Copy, PartialEq, Eq, Structural)]
pub enum FrameError {
    /// The bytes of the frame are not the encoding of a value.
    DecodingError,
    /// The frame is larger than the byte limit.
    SizeLimitExceeded,
    /// The stream ended before a whole frame had arrived.
    ConnectionClosed,
    /// The stream is open and holds no whole frame yet.
    NoDataYet,
}

impl FrameError {
    /// The reason, in words.
    pub open spec fn text(self) -> Seq<char> {
        match self {
            FrameError::DecodingError => "the frame could not be decoded"@,
            FrameError::SizeLimitExceeded => "the size limit has been reached"@,
            FrameError::ConnectionClosed => "the connection was closed"@,
            FrameError::NoDataYet => "no data yet"@,
        }
    }

    /// The reason, in words.
    pub fn to_text(&self) -> (r: String)
        ensures
            r@ == self.text(),
    {
        match self {
            FrameError::DecodingError => "the frame could not be decoded".to_owned(),
            FrameError::SizeLimitExceeded => "the size limit has been reached".to_owned(),
            FrameError::ConnectionClosed => "the connection was closed".to_owned(),
            FrameError::NoDataYet => "no data yet".to_owned(),
        }
    }
}

/// The greatest size of a frame's content where no other limit is set.
pub open spec fn default_byte_limit() -> u64 {
    4000
}

/// The frame that carries `value`: the size of its encoding, in eight bytes,
/// followed by the encoding.
pub open spec fn frame<T: Wire>(value: T::Model) -> Seq<u8> {
    u64_encoding(T::encoding(value).len() as u64) + T::encoding(value)
}

/// What reading one frame from the start of `bytes` gives: the value and the
/// number of bytes that the frame took, or the reason for which there is
/// none. `closed` says whether more bytes may still come.
///
/// A frame is read whole or not at all. While its size or its content has
/// not fully arrived, there is no data yet on an open stream, and the
/// connection counts as closed on a stream that has ended. A frame that
/// announces more than `limit` bytes is turned down on its size alone,
/// before its content is looked at. The content must be the encoding of one
/// value and nothing else.
pub open spec fn frame_reading<T: Wire>(bytes: Seq<u8>, limit: u64, closed: bool) -> Result<
    (T::Model, int),
    FrameError,
> {
    let starved = if closed {
        FrameError::ConnectionClosed
    } else {
        FrameError::NoDataYet
    };
    match u64_decoding(bytes) {
        None => Err(starved),
        Some((size, _)) => if size > limit {
            Err(FrameError::SizeLimitExceeded)
        } else if bytes.len() - 8 < size {
            Err(starved)
        } else {
            match T::decoding(bytes.subrange(8, 8 + size)) {
                Some((value, used)) => if used == size {
                    Ok((value, 8 + size))
                } else {
                    Err(FrameError::DecodingError)
                },
                None => Err(FrameError::DecodingError),
            }
        },
    }
}

/// Round trip. A value whose encoding keeps the limit, written as a frame,
/// is read back as the same value, whatever follows the frame and whether or
/// not the stream has ended; and reading takes the bytes of the frame, no
/// more and no fewer.
pub proof fn lemma_frame_round_trip<T: Wire>(
    value: T::Model,
    rest: Seq<u8>,
    limit: u64,
    closed: bool,
)
    requires
        T::encodable(value),
        T::encoding(value).len() <= limit,
    ensures
        frame_reading::<T>(frame::<T>(value) + rest, limit, closed) == Ok::<
            (T::Model, int),
            FrameError,
        >((value, frame::<T>(value).len() as int)),
{
    let content = T::encoding(value);
    let size = content.len() as u64;
    let all = frame::<T>(value) + rest;
    lemma_assoc(u64_encoding(size), content, rest);
    lemma_u64_round_trip(size, content + rest);
    assert(all.subrange(8, 8 + size) =~= content);
    T::lemma_round_trip(value, Seq::empty());
    assert(content + Seq::<u8>::empty() =~= content);
}

/// No partial frames. Whatever is read is a whole frame: the bytes that a
/// value took are the frame of that value, and its encoding keeps the
/// limit.
pub proof fn lemma_frame_read_whole<T: Wire>(bytes: Seq<u8>, limit: u64, closed: bool)
    ensures
        frame_reading::<T>(bytes, limit, closed) matches Ok((value, used)) ==> T::encodable(value)
            && T::encoding(value).len() <= limit && 0 <= used <= bytes.len() && bytes.take(used)
            == frame::<T>(value),
{
    lemma_u64_decoded(bytes);
    if let Ok((value, used)) = frame_reading::<T>(bytes, limit, closed) {
        let size = used - 8;
        let content = bytes.subrange(8, used);
        T::lemma_decoded(content);
        assert(content.take(size) =~= content);
        lemma_take_more(bytes, 8, size);
        assert(bytes.skip(8).take(size) =~= content);
    }
}

/// A frame that is too large is turned down as soon as its size has
/// arrived, whatever its content is and however little of it is there.
pub proof fn lemma_size_limit_on_read<T: Wire>(bytes: Seq<u8>, limit: u64, closed: bool)
    requires
        u64_decoding(bytes) matches Some((size, _)) && size > limit,
    ensures
        frame_reading::<T>(bytes, limit, closed) == Err::<(T::Model, int), FrameError>(
            FrameError::SizeLimitExceeded,
        ),
{
}

/// Writes `value` as one frame to the end of `out`, unless its encoding is
/// larger than `limit` bytes: then nothing is written at all.
pub fn write_frame<T: Wire>(value: &T, limit: u64, out: &mut Vec<u8>) -> (r: Result<
    (),
    FrameError,
>)
    ensures
        match r {
            Ok(_) => T::encoding(value.model()).len() <= limit && final(out)@ == old(out)@
                + frame::<T>(value.model()),
            Err(error) => error == FrameError::SizeLimitExceeded && T::encoding(
                value.model(),
            ).len() > limit && final(out)@ == old(out)@,
        },
        T::encodable(value.model()),
{
    let mut content: Vec<u8> = Vec::new();
    value.encode(&mut content);
    assert(content@ =~= T::encoding(value.model()));
    if content.len() as u64 > limit {
        return Err(FrameError::SizeLimitExceeded);
    }
    put_u64(out, content.len() as u64);
    out.append(&mut content);
    proof {
        lemma_assoc(
            old(out)@,
            u64_encoding(T::encoding(value.model()).len() as u64),
            T::encoding(value.model()),
        );
    }
    Ok(())
}

/// Reads one frame from the start of `bytes`. `closed` says whether the
/// stream has ended, so that no more bytes will come.
pub fn read_frame<T: Wire>(bytes: &Vec<u8>, limit: u64, closed: bool) -> (r: Result<
    (T, usize),
    FrameError,
>)
    ensures
        match frame_reading::<T>(bytes@, limit, closed) {
            Ok((value, used)) => r matches Ok((read, end)) && read.model() == value && end
                == used && end <= bytes@.len(),
            Err(error) => r matches Err(reason) && reason == error,
        },
{
    let starved = if closed {
        FrameError::ConnectionClosed
    } else {
        FrameError::NoDataYet
    };
    proof {
        assert(bytes@.skip(0) =~= bytes@);
    }
    let (size, from) = match get_u64(bytes, 0) {
        Some(read) => read,
        None => {
            return Err(starved);
        },
    };
    if size > limit {
        return Err(FrameError::SizeLimitExceeded);
    }
    if ((bytes.len() - from) as u64) < size {
        return Err(starved);
    }
    let end: usize = from + size as usize;
    let content = slice_to_vec(slice_subrange(bytes.as_slice(), from, end));
    proof {
        assert(content@.skip(0) =~= content@);
    }
    match T::decode(&content, 0) {
        Some((value, used)) => {
            if used == content.len() {
                Ok((value, end))
            } else {
                Err(FrameError::DecodingError)
            }
        },
        None => Err(FrameError::DecodingError),
    }
}

} // verus!
