//! The encodings of the values of the protocol.

use crate::address::PeerAddr;
use crate::message::{Message, MessageError, MessageView};
use crate::request::{Request, RequestError, RequestErrorView, RequestView};
use crate::response::{response_view, Response, ResponseView};
use crate::user::{User, UserView, Username, UsernameError};
use crate::value::{Value, ValueView};
use crate::wire::{
    blob_decoding, blob_encodable, blob_encoding, bool_decoding, bool_encoding, get_blob,
    get_bool, get_i64, get_text, get_u128, get_u16, get_u32, get_u64, get_u8, get_usize,
    i64_decoding, i64_encoding, lemma_assoc, lemma_blob_round_trip, lemma_bool_round_trip,
    lemma_blob_decoded, lemma_bool_decoded, lemma_first_field, lemma_i64_decoded,
    lemma_i64_round_trip, lemma_skip, lemma_tag_and_body, lemma_tagged, lemma_take_more,
    lemma_text_decoded, lemma_text_round_trip, lemma_u128_decoded, lemma_u16_decoded,
    lemma_u32_decoded, lemma_u64_decoded, lemma_usize_decoded, lemma_u128_round_trip, lemma_u16_round_trip, lemma_u32_round_trip,
    lemma_u64_round_trip, lemma_usize_round_trip, put_blob, put_bool, put_i64, put_text,
    put_u128, put_u16, put_u32, put_u64, put_u8, put_usize, text_decoding, text_encodable,
    text_encoding, u128_decoding, u128_encoding, u16_decoding, u16_encoding, u32_decoding,
    u32_encoding, u64_decoding, u64_encoding, usize_decoding, usize_encoding, Wire,
};
use vstd::prelude::*;

verus! {

/// A decoded body behind a tag byte: the value wrapped, one byte more used.
pub open spec fn tagged<A, B>(body: Option<(A, int)>, wrap: spec_fn(A) -> B) -> Option<(B, int)> {
    match body {
        Some((value, used)) => Some((wrap(value), 1 + used)),
        None => None,
    }
}

impl Wire for Value {
    type Model = ValueView;

    open spec fn model(&self) -> ValueView {
        self@
    }

    open spec fn encodable(value: ValueView) -> bool {
        match value {
            ValueView::String(text) => text_encodable(text),
            ValueView::Image(blob) => blob_encodable(blob),
            ValueView::File(blob) => blob_encodable(blob),
            _ => true,
        }
    }

    open spec fn encoding(value: ValueView) -> Seq<u8> {
        match value {
            ValueView::String(text) => seq![0u8] + text_encoding(text),
            ValueView::Integer(i) => seq![1u8] + i64_encoding(i),
            ValueView::Float(bits) => seq![2u8] + u64_encoding(bits),
            ValueView::Boolean(b) => seq![3u8] + bool_encoding(b),
            ValueView::Image(blob) => seq![4u8] + blob_encoding(blob),
            ValueView::File(blob) => seq![5u8] + blob_encoding(blob),
        }
    }

    open spec fn decoding(bytes: Seq<u8>) -> Option<(ValueView, int)> {
        if bytes.len() == 0 {
            None
        } else if bytes[0] == 0 {
            tagged(text_decoding(bytes.skip(1)), |text: Seq<char>| ValueView::String(text))
        } else if bytes[0] == 1 {
            tagged(i64_decoding(bytes.skip(1)), |i: i64| ValueView::Integer(i))
        } else if bytes[0] == 2 {
            tagged(u64_decoding(bytes.skip(1)), |bits: u64| ValueView::Float(bits))
        } else if bytes[0] == 3 {
            tagged(bool_decoding(bytes.skip(1)), |b: bool| ValueView::Boolean(b))
        } else if bytes[0] == 4 {
            tagged(blob_decoding(bytes.skip(1)), |blob: Seq<u8>| ValueView::Image(blob))
        } else if bytes[0] == 5 {
            tagged(blob_decoding(bytes.skip(1)), |blob: Seq<u8>| ValueView::File(blob))
        } else {
            None
        }
    }

    proof fn lemma_round_trip(value: ValueView, rest: Seq<u8>) {
        match value {
            ValueView::String(text) => {
                lemma_tagged(0, text_encoding(text), rest);
                lemma_text_round_trip(text, rest);
            },
            ValueView::Integer(i) => {
                lemma_tagged(1, i64_encoding(i), rest);
                lemma_i64_round_trip(i, rest);
            },
            ValueView::Float(bits) => {
                lemma_tagged(2, u64_encoding(bits), rest);
                lemma_u64_round_trip(bits, rest);
            },
            ValueView::Boolean(b) => {
                lemma_tagged(3, bool_encoding(b), rest);
                lemma_bool_round_trip(b, rest);
            },
            ValueView::Image(blob) => {
                lemma_tagged(4, blob_encoding(blob), rest);
                lemma_blob_round_trip(blob, rest);
            },
            ValueView::File(blob) => {
                lemma_tagged(5, blob_encoding(blob), rest);
                lemma_blob_round_trip(blob, rest);
            },
        }
    }

    proof fn lemma_decoded(bytes: Seq<u8>) {
        if bytes.len() > 0 {
            let body = bytes.skip(1);
            lemma_text_decoded(body);
            lemma_i64_decoded(body);
            lemma_u64_decoded(body);
            lemma_bool_decoded(body);
            lemma_blob_decoded(body);
            if let Some((value, used)) = Self::decoding(bytes) {
                lemma_tag_and_body(bytes, used - 1);
            }
        }
    }

    fn encode(&self, out: &mut Vec<u8>) {
        match self {
            Value::String(text) => {
                put_u8(out, 0);
                put_text(out, text.as_str());
                proof {
                    lemma_assoc(old(out)@, seq![0u8], text_encoding(text@));
                }
            },
            Value::Integer(i) => {
                put_u8(out, 1);
                put_i64(out, *i);
                proof {
                    lemma_assoc(old(out)@, seq![1u8], i64_encoding(*i));
                }
            },
            Value::Float(bits) => {
                put_u8(out, 2);
                put_u64(out, *bits);
                proof {
                    lemma_assoc(old(out)@, seq![2u8], u64_encoding(*bits));
                }
            },
            Value::Boolean(b) => {
                put_u8(out, 3);
                put_bool(out, *b);
                proof {
                    lemma_assoc(old(out)@, seq![3u8], bool_encoding(*b));
                }
            },
            Value::Image(blob) => {
                put_u8(out, 4);
                put_blob(out, blob);
                proof {
                    lemma_assoc(old(out)@, seq![4u8], blob_encoding(blob@));
                }
            },
            Value::File(blob) => {
                put_u8(out, 5);
                put_blob(out, blob);
                proof {
                    lemma_assoc(old(out)@, seq![5u8], blob_encoding(blob@));
                }
            },
        }
    }

    fn decode(bytes: &Vec<u8>, start: usize) -> (r: Option<(Self, usize)>) {
        let (tag, at) = match get_u8(bytes, start) {
            Some(read) => read,
            None => {
                return None;
            },
        };
        proof {
            lemma_skip(bytes@, start as int, 1);
        }
        if tag == 0 {
            match get_text(bytes, at) {
                Some((text, end)) => Some((Value::String(text), end)),
                None => None,
            }
        } else if tag == 1 {
            match get_i64(bytes, at) {
                Some((i, end)) => Some((Value::Integer(i), end)),
                None => None,
            }
        } else if tag == 2 {
            match get_u64(bytes, at) {
                Some((bits, end)) => Some((Value::Float(bits), end)),
                None => None,
            }
        } else if tag == 3 {
            match get_bool(bytes, at) {
                Some((b, end)) => Some((Value::Boolean(b), end)),
                None => None,
            }
        } else if tag == 4 {
            match get_blob(bytes, at) {
                Some((blob, end)) => Some((Value::Image(blob), end)),
                None => None,
            }
        } else if tag == 5 {
            match get_blob(bytes, at) {
                Some((blob, end)) => Some((Value::File(blob), end)),
                None => None,
            }
        } else {
            None
        }
    }
}

impl Wire for PeerAddr {
    type Model = PeerAddr;

    open spec fn model(&self) -> PeerAddr {
        *self
    }

    open spec fn encodable(value: PeerAddr) -> bool {
        true
    }

    open spec fn encoding(value: PeerAddr) -> Seq<u8> {
        match value {
            PeerAddr::V4 { ip, port } => seq![0u8] + (u32_encoding(ip) + u16_encoding(port)),
            PeerAddr::V6 { ip, port, flowinfo, scope_id } => seq![1u8] + (u128_encoding(ip) + (
            u16_encoding(port) + (u32_encoding(flowinfo) + u32_encoding(scope_id)))),
        }
    }

    open spec fn decoding(bytes: Seq<u8>) -> Option<(PeerAddr, int)> {
        if bytes.len() == 0 {
            None
        } else if bytes[0] == 0 {
            match (u32_decoding(bytes.skip(1)), u16_decoding(bytes.skip(5))) {
                (Some((ip, _)), Some((port, _))) => Some((PeerAddr::V4 { ip, port }, 7)),
                _ => None,
            }
        } else if bytes[0] == 1 {
            match (
                u128_decoding(bytes.skip(1)),
                u16_decoding(bytes.skip(17)),
                u32_decoding(bytes.skip(19)),
                u32_decoding(bytes.skip(23)),
            ) {
                (Some((ip, _)), Some((port, _)), Some((flowinfo, _)), Some((scope_id, _))) => Some(
                    (PeerAddr::V6 { ip, port, flowinfo, scope_id }, 27),
                ),
                _ => None,
            }
        } else {
            None
        }
    }

    proof fn lemma_round_trip(value: PeerAddr, rest: Seq<u8>) {
        let all = Self::encoding(value) + rest;
        match value {
            PeerAddr::V4 { ip, port } => {
                let tail = u16_encoding(port) + rest;
                lemma_u32_round_trip(ip, tail);
                lemma_u16_round_trip(port, rest);
                assert(all.skip(1) =~= u32_encoding(ip) + tail);
                assert(all.skip(5) =~= u16_encoding(port) + rest);
            },
            PeerAddr::V6 { ip, port, flowinfo, scope_id } => {
                let last = u32_encoding(scope_id) + rest;
                let third = u32_encoding(flowinfo) + last;
                let second = u16_encoding(port) + third;
                lemma_u128_round_trip(ip, second);
                lemma_u16_round_trip(port, third);
                lemma_u32_round_trip(flowinfo, last);
                lemma_u32_round_trip(scope_id, rest);
                assert(all.skip(1) =~= u128_encoding(ip) + second);
                assert(all.skip(17) =~= u16_encoding(port) + third);
                assert(all.skip(19) =~= u32_encoding(flowinfo) + last);
                assert(all.skip(23) =~= u32_encoding(scope_id) + rest);
            },
        }
    }

    proof fn lemma_decoded(bytes: Seq<u8>) {
        if let Some((value, used)) = Self::decoding(bytes) {
            lemma_u32_decoded(bytes.skip(1));
            lemma_u16_decoded(bytes.skip(5));
            lemma_u128_decoded(bytes.skip(1));
            lemma_u16_decoded(bytes.skip(17));
            lemma_u32_decoded(bytes.skip(19));
            lemma_u32_decoded(bytes.skip(23));
            assert(bytes.take(used) =~= Self::encoding(value));
        }
    }

    fn encode(&self, out: &mut Vec<u8>) {
        match self {
            PeerAddr::V4 { ip, port } => {
                put_u8(out, 0);
                put_u32(out, *ip);
                put_u16(out, *port);
                assert(out@ =~= old(out)@ + Self::encoding(*self));
            },
            PeerAddr::V6 { ip, port, flowinfo, scope_id } => {
                put_u8(out, 1);
                put_u128(out, *ip);
                put_u16(out, *port);
                put_u32(out, *flowinfo);
                put_u32(out, *scope_id);
                assert(out@ =~= old(out)@ + Self::encoding(*self));
            },
        }
    }

    fn decode(bytes: &Vec<u8>, start: usize) -> (r: Option<(Self, usize)>) {
        let (tag, at) = match get_u8(bytes, start) {
            Some(read) => read,
            None => {
                return None;
            },
        };
        let ghost given = bytes@.skip(start as int);
        if tag == 0 {
            if bytes.len() - at < 6 {
                return None;
            }
            proof {
                lemma_skip(bytes@, start as int, 1);
                lemma_skip(bytes@, start as int, 5);
            }
            let (ip, at) = match get_u32(bytes, at) {
                Some(read) => read,
                None => {
                    return None;
                },
            };
            let (port, end) = match get_u16(bytes, at) {
                Some(read) => read,
                None => {
                    return None;
                },
            };
            Some((PeerAddr::V4 { ip, port }, end))
        } else if tag == 1 {
            if bytes.len() - at < 26 {
                return None;
            }
            proof {
                lemma_skip(bytes@, start as int, 1);
                lemma_skip(bytes@, start as int, 17);
                lemma_skip(bytes@, start as int, 19);
                lemma_skip(bytes@, start as int, 23);
            }
            let (ip, at) = match get_u128(bytes, at) {
                Some(read) => read,
                None => {
                    return None;
                },
            };
            let (port, at) = match get_u16(bytes, at) {
                Some(read) => read,
                None => {
                    return None;
                },
            };
            let (flowinfo, at) = match get_u32(bytes, at) {
                Some(read) => read,
                None => {
                    return None;
                },
            };
            let (scope_id, end) = match get_u32(bytes, at) {
                Some(read) => read,
                None => {
                    return None;
                },
            };
            Some((PeerAddr::V6 { ip, port, flowinfo, scope_id }, end))
        } else {
            None
        }
    }
}

/// The addresses of a user: one byte that says whether there are any, then
/// the two addresses.
pub open spec fn addresses_encoding(addresses: Option<(PeerAddr, PeerAddr)>) -> Seq<u8> {
    match addresses {
        None => seq![0u8],
        Some((first, second)) => seq![1u8] + (PeerAddr::encoding(first) + PeerAddr::encoding(
            second,
        )),
    }
}

pub open spec fn addresses_decoding(bytes: Seq<u8>) -> Option<(Option<(PeerAddr, PeerAddr)>, int)> {
    if bytes.len() == 0 {
        None
    } else if bytes[0] == 0 {
        Some((None, 1))
    } else if bytes[0] == 1 {
        match PeerAddr::decoding(bytes.skip(1)) {
            Some((first, a)) => match PeerAddr::decoding(bytes.skip(1 + a)) {
                Some((second, b)) => Some((Some((first, second)), 1 + a + b)),
                None => None,
            },
            None => None,
        }
    } else {
        None
    }
}

pub proof fn lemma_addresses_round_trip(addresses: Option<(PeerAddr, PeerAddr)>, rest: Seq<u8>)
    ensures
        addresses_decoding(addresses_encoding(addresses) + rest) == Some(
            (addresses, addresses_encoding(addresses).len() as int),
        ),
{
    let all = addresses_encoding(addresses) + rest;
    match addresses {
        None => {},
        Some((first, second)) => {
            let a = PeerAddr::encoding(first);
            let b = PeerAddr::encoding(second);
            assert(all.skip(1) =~= a + (b + rest));
            PeerAddr::lemma_round_trip(first, b + rest);
            assert(all.skip(1 + a.len() as int) =~= b + rest);
            PeerAddr::lemma_round_trip(second, rest);
        },
    }
}

pub proof fn lemma_addresses_decoded(bytes: Seq<u8>)
    ensures
        addresses_decoding(bytes) matches Some((addresses, used)) ==> 0 <= used <= bytes.len()
            && bytes.take(used) == addresses_encoding(addresses),
{
    if bytes.len() > 0 {
        assert(bytes.take(1) =~= seq![bytes[0]]);
        let body = bytes.skip(1);
        PeerAddr::lemma_decoded(body);
        if let Some((first, a)) = PeerAddr::decoding(body) {
            PeerAddr::lemma_decoded(bytes.skip(1 + a));
            if let Some((second, b)) = PeerAddr::decoding(bytes.skip(1 + a)) {
                lemma_tag_and_body(bytes, a + b);
                lemma_take_more(body, a, b);
                assert(body.skip(a) =~= bytes.skip(1 + a));
            }
        }
    }
}

fn put_addresses(out: &mut Vec<u8>, addresses: &Option<(PeerAddr, PeerAddr)>)
    ensures
        final(out)@ == old(out)@ + addresses_encoding(*addresses),
{
    match addresses {
        None => {
            put_u8(out, 0);
        },
        Some((first, second)) => {
            put_u8(out, 1);
            first.encode(out);
            second.encode(out);
            assert(out@ =~= old(out)@ + addresses_encoding(*addresses));
        },
    }
}

fn get_addresses(bytes: &Vec<u8>, start: usize) -> (r: Option<
    (Option<(PeerAddr, PeerAddr)>, usize),
>)
    requires
        start <= bytes@.len(),
    ensures
        match addresses_decoding(bytes@.skip(start as int)) {
            Some((addresses, used)) => r matches Some((read, end)) && read == addresses && start
                <= end && end == start + used && end <= bytes@.len(),
            None => r is None,
        },
{
    let (tag, at) = match get_u8(bytes, start) {
        Some(read) => read,
        None => {
            return None;
        },
    };
    if tag == 0 {
        Some((None, at))
    } else if tag == 1 {
        proof {
            lemma_skip(bytes@, start as int, 1);
        }
        let (first, at) = match PeerAddr::decode(bytes, at) {
            Some(read) => read,
            None => {
                return None;
            },
        };
        proof {
            lemma_skip(bytes@, start as int, at - start);
        }
        let (second, end) = match PeerAddr::decode(bytes, at) {
            Some(read) => read,
            None => {
                return None;
            },
        };
        Some((Some((first, second)), end))
    } else {
        None
    }
}

impl Wire for User {
    type Model = UserView;

    open spec fn model(&self) -> UserView {
        self@
    }

    open spec fn encodable(value: UserView) -> bool {
        Value::encodable(value.username)
    }

    open spec fn encoding(value: UserView) -> Seq<u8> {
        Value::encoding(value.username) + (usize_encoding(value.id) + addresses_encoding(
            value.addresses,
        ))
    }

    open spec fn decoding(bytes: Seq<u8>) -> Option<(UserView, int)> {
        match Value::decoding(bytes) {
            Some((username, a)) => match usize_decoding(bytes.skip(a)) {
                Some((id, b)) => match addresses_decoding(bytes.skip(a + b)) {
                    Some((addresses, c)) => Some(
                        (UserView { username, id, addresses }, a + b + c),
                    ),
                    None => None,
                },
                None => None,
            },
            None => None,
        }
    }

    proof fn lemma_round_trip(value: UserView, rest: Seq<u8>) {
        let all = Self::encoding(value) + rest;
        let a = Value::encoding(value.username);
        let b = usize_encoding(value.id);
        let c = addresses_encoding(value.addresses);
        assert(all =~= a + (b + (c + rest)));
        Value::lemma_round_trip(value.username, b + (c + rest));
        lemma_usize_round_trip(value.id, c + rest);
        lemma_addresses_round_trip(value.addresses, rest);
        assert(all.skip(a.len() as int) =~= b + (c + rest));
        assert(all.skip(a.len() as int + 8) =~= c + rest);
    }

    proof fn lemma_decoded(bytes: Seq<u8>) {
        Value::lemma_decoded(bytes);
        if let Some((username, a)) = Value::decoding(bytes) {
            lemma_usize_decoded(bytes.skip(a));
            if let Some((id, b)) = usize_decoding(bytes.skip(a)) {
                lemma_addresses_decoded(bytes.skip(a + b));
                if let Some((addresses, c)) = addresses_decoding(bytes.skip(a + b)) {
                    lemma_take_more(bytes, a, b + c);
                    lemma_take_more(bytes.skip(a), b, c);
                    assert(bytes.skip(a).skip(b) =~= bytes.skip(a + b));
                }
            }
        }
    }

    fn encode(&self, out: &mut Vec<u8>) {
        self.username().value().encode(out);
        put_usize(out, self.id());
        put_addresses(out, self.addrs());
        assert(out@ =~= old(out)@ + Self::encoding(self@));
    }

    fn decode(bytes: &Vec<u8>, start: usize) -> (r: Option<(Self, usize)>) {
        let (username, at) = match Value::decode(bytes, start) {
            Some(read) => read,
            None => {
                return None;
            },
        };
        proof {
            lemma_skip(bytes@, start as int, at - start);
        }
        let (id, from) = match get_usize(bytes, at) {
            Some(read) => read,
            None => {
                return None;
            },
        };
        proof {
            lemma_skip(bytes@, start as int, from - start);
        }
        let (addresses, end) = match get_addresses(bytes, from) {
            Some(read) => read,
            None => {
                return None;
            },
        };
        let user = User::builder().username(Username::new(username)).id(id).addresses(
            addresses,
        ).build();
        Some((user, end))
    }
}

impl Wire for Message {
    type Model = MessageView;

    open spec fn model(&self) -> MessageView {
        self@
    }

    open spec fn encodable(value: MessageView) -> bool {
        User::encodable(value.from) && Value::encodable(value.payload)
    }

    open spec fn encoding(value: MessageView) -> Seq<u8> {
        User::encoding(value.from) + Value::encoding(value.payload)
    }

    open spec fn decoding(bytes: Seq<u8>) -> Option<(MessageView, int)> {
        match User::decoding(bytes) {
            Some((from, a)) => match Value::decoding(bytes.skip(a)) {
                Some((payload, b)) => Some((MessageView { from, payload }, a + b)),
                None => None,
            },
            None => None,
        }
    }

    proof fn lemma_round_trip(value: MessageView, rest: Seq<u8>) {
        lemma_first_field::<User>(value.from, Value::encoding(value.payload), rest);
        Value::lemma_round_trip(value.payload, rest);
    }

    proof fn lemma_decoded(bytes: Seq<u8>) {
        User::lemma_decoded(bytes);
        if let Some((from, a)) = User::decoding(bytes) {
            Value::lemma_decoded(bytes.skip(a));
            if let Some((payload, b)) = Value::decoding(bytes.skip(a)) {
                lemma_take_more(bytes, a, b);
            }
        }
    }

    fn encode(&self, out: &mut Vec<u8>) {
        self.from().encode(out);
        self.payload().encode(out);
        assert(out@ =~= old(out)@ + Self::encoding(self@));
    }

    fn decode(bytes: &Vec<u8>, start: usize) -> (r: Option<(Self, usize)>) {
        let (from, at) = match User::decode(bytes, start) {
            Some(read) => read,
            None => {
                return None;
            },
        };
        proof {
            lemma_skip(bytes@, start as int, at - start);
        }
        let (payload, end) = match Value::decode(bytes, at) {
            Some(read) => read,
            None => {
                return None;
            },
        };
        Some((Message::builder().from_who(from).payload(payload).build(), end))
    }
}

impl Wire for MessageError {
    type Model = MessageError;

    open spec fn model(&self) -> MessageError {
        *self
    }

    open spec fn encodable(value: MessageError) -> bool {
        true
    }

    open spec fn encoding(value: MessageError) -> Seq<u8> {
        seq![match value {
            MessageError::Empty => 0u8,
            MessageError::JustWhitespace => 1u8,
            MessageError::LeadingWhitespace => 2u8,
            MessageError::TrailingWhitespace => 3u8,
            MessageError::TextOnly => 4u8,
        }]
    }

    open spec fn decoding(bytes: Seq<u8>) -> Option<(MessageError, int)> {
        if bytes.len() == 0 {
            None
        } else if bytes[0] == 0 {
            Some((MessageError::Empty, 1))
        } else if bytes[0] == 1 {
            Some((MessageError::JustWhitespace, 1))
        } else if bytes[0] == 2 {
            Some((MessageError::LeadingWhitespace, 1))
        } else if bytes[0] == 3 {
            Some((MessageError::TrailingWhitespace, 1))
        } else if bytes[0] == 4 {
            Some((MessageError::TextOnly, 1))
        } else {
            None
        }
    }

    proof fn lemma_round_trip(value: MessageError, rest: Seq<u8>) {
    }

    proof fn lemma_decoded(bytes: Seq<u8>) {
        if bytes.len() > 0 {
            assert(bytes.take(1) =~= seq![bytes[0]]);
        }
    }

    fn encode(&self, out: &mut Vec<u8>) {
        put_u8(
            out,
            match self {
                MessageError::Empty => 0,
                MessageError::JustWhitespace => 1,
                MessageError::LeadingWhitespace => 2,
                MessageError::TrailingWhitespace => 3,
                MessageError::TextOnly => 4,
            },
        );
    }

    fn decode(bytes: &Vec<u8>, start: usize) -> (r: Option<(Self, usize)>) {
        match get_u8(bytes, start) {
            Some((tag, end)) => {
                if tag == 0 {
                    Some((MessageError::Empty, end))
                } else if tag == 1 {
                    Some((MessageError::JustWhitespace, end))
                } else if tag == 2 {
                    Some((MessageError::LeadingWhitespace, end))
                } else if tag == 3 {
                    Some((MessageError::TrailingWhitespace, end))
                } else if tag == 4 {
                    Some((MessageError::TextOnly, end))
                } else {
                    None
                }
            },
            None => None,
        }
    }
}

impl Wire for UsernameError {
    type Model = UsernameError;

    open spec fn model(&self) -> UsernameError {
        *self
    }

    open spec fn encodable(value: UsernameError) -> bool {
        true
    }

    open spec fn encoding(value: UsernameError) -> Seq<u8> {
        seq![match value {
            UsernameError::TextOnly => 0u8,
            UsernameError::TooLong => 1u8,
            UsernameError::TooShort => 2u8,
            UsernameError::Whitespace => 3u8,
        }]
    }

    open spec fn decoding(bytes: Seq<u8>) -> Option<(UsernameError, int)> {
        if bytes.len() == 0 {
            None
        } else if bytes[0] == 0 {
            Some((UsernameError::TextOnly, 1))
        } else if bytes[0] == 1 {
            Some((UsernameError::TooLong, 1))
        } else if bytes[0] == 2 {
            Some((UsernameError::TooShort, 1))
        } else if bytes[0] == 3 {
            Some((UsernameError::Whitespace, 1))
        } else {
            None
        }
    }

    proof fn lemma_round_trip(value: UsernameError, rest: Seq<u8>) {
    }

    proof fn lemma_decoded(bytes: Seq<u8>) {
        if bytes.len() > 0 {
            assert(bytes.take(1) =~= seq![bytes[0]]);
        }
    }

    fn encode(&self, out: &mut Vec<u8>) {
        put_u8(
            out,
            match self {
                UsernameError::TextOnly => 0,
                UsernameError::TooLong => 1,
                UsernameError::TooShort => 2,
                UsernameError::Whitespace => 3,
            },
        );
    }

    fn decode(bytes: &Vec<u8>, start: usize) -> (r: Option<(Self, usize)>) {
        match get_u8(bytes, start) {
            Some((tag, end)) => {
                if tag == 0 {
                    Some((UsernameError::TextOnly, end))
                } else if tag == 1 {
                    Some((UsernameError::TooLong, end))
                } else if tag == 2 {
                    Some((UsernameError::TooShort, end))
                } else if tag == 3 {
                    Some((UsernameError::Whitespace, end))
                } else {
                    None
                }
            },
            None => None,
        }
    }
}

impl Wire for RequestError {
    type Model = RequestErrorView;

    open spec fn model(&self) -> RequestErrorView {
        self@
    }

    open spec fn encodable(value: RequestErrorView) -> bool {
        match value {
            RequestErrorView::Bad(reason) => text_encodable(reason),
            _ => true,
        }
    }

    open spec fn encoding(value: RequestErrorView) -> Seq<u8> {
        match value {
            RequestErrorView::Ip => seq![0u8],
            RequestErrorView::Bad(reason) => seq![1u8] + text_encoding(reason),
            RequestErrorView::Username(error) => seq![2u8] + UsernameError::encoding(error),
            RequestErrorView::Message(error) => seq![3u8] + MessageError::encoding(error),
        }
    }

    open spec fn decoding(bytes: Seq<u8>) -> Option<(RequestErrorView, int)> {
        if bytes.len() == 0 {
            None
        } else if bytes[0] == 0 {
            Some((RequestErrorView::Ip, 1))
        } else if bytes[0] == 1 {
            tagged(text_decoding(bytes.skip(1)), |reason: Seq<char>| RequestErrorView::Bad(reason))
        } else if bytes[0] == 2 {
            tagged(
                UsernameError::decoding(bytes.skip(1)),
                |error: UsernameError| RequestErrorView::Username(error),
            )
        } else if bytes[0] == 3 {
            tagged(
                MessageError::decoding(bytes.skip(1)),
                |error: MessageError| RequestErrorView::Message(error),
            )
        } else {
            None
        }
    }

    proof fn lemma_round_trip(value: RequestErrorView, rest: Seq<u8>) {
        match value {
            RequestErrorView::Ip => {},
            RequestErrorView::Bad(reason) => {
                lemma_tagged(1, text_encoding(reason), rest);
                lemma_text_round_trip(reason, rest);
            },
            RequestErrorView::Username(error) => {
                lemma_tagged(2, UsernameError::encoding(error), rest);
                UsernameError::lemma_round_trip(error, rest);
            },
            RequestErrorView::Message(error) => {
                lemma_tagged(3, MessageError::encoding(error), rest);
                MessageError::lemma_round_trip(error, rest);
            },
        }
    }

    proof fn lemma_decoded(bytes: Seq<u8>) {
        if bytes.len() > 0 {
            let body = bytes.skip(1);
            lemma_text_decoded(body);
            UsernameError::lemma_decoded(body);
            MessageError::lemma_decoded(body);
            assert(bytes.take(1) =~= seq![bytes[0]]);
            if let Some((value, used)) = Self::decoding(bytes) {
                lemma_tag_and_body(bytes, used - 1);
            }
        }
    }

    fn encode(&self, out: &mut Vec<u8>) {
        match self {
            RequestError::Ip => {
                put_u8(out, 0);
            },
            RequestError::Bad(reason) => {
                put_u8(out, 1);
                put_text(out, reason.as_str());
                proof {
                    lemma_assoc(old(out)@, seq![1u8], text_encoding(reason@));
                }
            },
            RequestError::Username(error) => {
                put_u8(out, 2);
                error.encode(out);
                proof {
                    lemma_assoc(old(out)@, seq![2u8], UsernameError::encoding(*error));
                }
            },
            RequestError::Message(error) => {
                put_u8(out, 3);
                error.encode(out);
                proof {
                    lemma_assoc(old(out)@, seq![3u8], MessageError::encoding(*error));
                }
            },
        }
    }

    fn decode(bytes: &Vec<u8>, start: usize) -> (r: Option<(Self, usize)>) {
        let (tag, at) = match get_u8(bytes, start) {
            Some(read) => read,
            None => {
                return None;
            },
        };
        proof {
            lemma_skip(bytes@, start as int, 1);
        }
        if tag == 0 {
            Some((RequestError::Ip, at))
        } else if tag == 1 {
            match get_text(bytes, at) {
                Some((reason, end)) => Some((RequestError::Bad(reason), end)),
                None => None,
            }
        } else if tag == 2 {
            match UsernameError::decode(bytes, at) {
                Some((error, end)) => Some((RequestError::Username(error), end)),
                None => None,
            }
        } else if tag == 3 {
            match MessageError::decode(bytes, at) {
                Some((error, end)) => Some((RequestError::Message(error), end)),
                None => None,
            }
        } else {
            None
        }
    }
}

impl Wire for Request {
    type Model = RequestView;

    open spec fn model(&self) -> RequestView {
        self@
    }

    open spec fn encodable(value: RequestView) -> bool {
        match value {
            RequestView::SendMessage(payload) => Value::encodable(payload),
            RequestView::ChangeUserName(name) => Value::encodable(name),
            RequestView::UserList => true,
        }
    }

    open spec fn encoding(value: RequestView) -> Seq<u8> {
        match value {
            RequestView::SendMessage(payload) => seq![0u8] + Value::encoding(payload),
            RequestView::ChangeUserName(name) => seq![1u8] + Value::encoding(name),
            RequestView::UserList => seq![2u8],
        }
    }

    open spec fn decoding(bytes: Seq<u8>) -> Option<(RequestView, int)> {
        if bytes.len() == 0 {
            None
        } else if bytes[0] == 0 {
            tagged(
                Value::decoding(bytes.skip(1)),
                |payload: ValueView| RequestView::SendMessage(payload),
            )
        } else if bytes[0] == 1 {
            tagged(
                Value::decoding(bytes.skip(1)),
                |name: ValueView| RequestView::ChangeUserName(name),
            )
        } else if bytes[0] == 2 {
            Some((RequestView::UserList, 1))
        } else {
            None
        }
    }

    proof fn lemma_round_trip(value: RequestView, rest: Seq<u8>) {
        match value {
            RequestView::SendMessage(payload) => {
                lemma_tagged(0, Value::encoding(payload), rest);
                Value::lemma_round_trip(payload, rest);
            },
            RequestView::ChangeUserName(name) => {
                lemma_tagged(1, Value::encoding(name), rest);
                Value::lemma_round_trip(name, rest);
            },
            RequestView::UserList => {},
        }
    }

    proof fn lemma_decoded(bytes: Seq<u8>) {
        if bytes.len() > 0 {
            Value::lemma_decoded(bytes.skip(1));
            assert(bytes.take(1) =~= seq![bytes[0]]);
            if let Some((value, used)) = Self::decoding(bytes) {
                lemma_tag_and_body(bytes, used - 1);
            }
        }
    }

    fn encode(&self, out: &mut Vec<u8>) {
        match self {
            Request::SendMessage(payload) => {
                put_u8(out, 0);
                payload.encode(out);
                proof {
                    lemma_assoc(old(out)@, seq![0u8], Value::encoding(payload@));
                }
            },
            Request::ChangeUserName(name) => {
                put_u8(out, 1);
                name.encode(out);
                proof {
                    lemma_assoc(old(out)@, seq![1u8], Value::encoding(name@));
                }
            },
            Request::UserList => {
                put_u8(out, 2);
            },
        }
    }

    fn decode(bytes: &Vec<u8>, start: usize) -> (r: Option<(Self, usize)>) {
        let (tag, at) = match get_u8(bytes, start) {
            Some(read) => read,
            None => {
                return None;
            },
        };
        proof {
            lemma_skip(bytes@, start as int, 1);
        }
        if tag == 0 {
            match Value::decode(bytes, at) {
                Some((payload, end)) => Some((Request::SendMessage(payload), end)),
                None => None,
            }
        } else if tag == 1 {
            match Value::decode(bytes, at) {
                Some((name, end)) => Some((Request::ChangeUserName(name), end)),
                None => None,
            }
        } else if tag == 2 {
            Some((Request::UserList, at))
        } else {
            None
        }
    }
}

impl Wire for Response {
    type Model = ResponseView;

    open spec fn model(&self) -> ResponseView {
        response_view(*self)
    }

    open spec fn encodable(value: ResponseView) -> bool {
        match value {
            Ok(message) => Message::encodable(message),
            Err(error) => RequestError::encodable(error),
        }
    }

    open spec fn encoding(value: ResponseView) -> Seq<u8> {
        match value {
            Ok(message) => seq![0u8] + Message::encoding(message),
            Err(error) => seq![1u8] + RequestError::encoding(error),
        }
    }

    open spec fn decoding(bytes: Seq<u8>) -> Option<(ResponseView, int)> {
        if bytes.len() == 0 {
            None
        } else if bytes[0] == 0 {
            tagged(
                Message::decoding(bytes.skip(1)),
                |message: MessageView| Ok::<MessageView, RequestErrorView>(message),
            )
        } else if bytes[0] == 1 {
            tagged(
                RequestError::decoding(bytes.skip(1)),
                |error: RequestErrorView| Err::<MessageView, RequestErrorView>(error),
            )
        } else {
            None
        }
    }

    proof fn lemma_round_trip(value: ResponseView, rest: Seq<u8>) {
        match value {
            Ok(message) => {
                lemma_tagged(0, Message::encoding(message), rest);
                Message::lemma_round_trip(message, rest);
            },
            Err(error) => {
                lemma_tagged(1, RequestError::encoding(error), rest);
                RequestError::lemma_round_trip(error, rest);
            },
        }
    }

    proof fn lemma_decoded(bytes: Seq<u8>) {
        if bytes.len() > 0 {
            Message::lemma_decoded(bytes.skip(1));
            RequestError::lemma_decoded(bytes.skip(1));
            if let Some((value, used)) = Self::decoding(bytes) {
                lemma_tag_and_body(bytes, used - 1);
            }
        }
    }

    fn encode(&self, out: &mut Vec<u8>) {
        match self {
            Ok(message) => {
                put_u8(out, 0);
                message.encode(out);
                proof {
                    lemma_assoc(old(out)@, seq![0u8], Message::encoding(message@));
                }
            },
            Err(error) => {
                put_u8(out, 1);
                error.encode(out);
                proof {
                    lemma_assoc(old(out)@, seq![1u8], RequestError::encoding(error@));
                }
            },
        }
    }

    fn decode(bytes: &Vec<u8>, start: usize) -> (r: Option<(Self, usize)>) {
        let (tag, at) = match get_u8(bytes, start) {
            Some(read) => read,
            None => {
                return None;
            },
        };
        proof {
            lemma_skip(bytes@, start as int, 1);
        }
        if tag == 0 {
            match Message::decode(bytes, at) {
                Some((message, end)) => Some((Ok(message), end)),
                None => None,
            }
        } else if tag == 1 {
            match RequestError::decode(bytes, at) {
                Some((error, end)) => Some((Err(error), end)),
                None => None,
            }
        } else {
            None
        }
    }
}

} // verus!
