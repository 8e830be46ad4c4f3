//! The core of a chat relay: clients send requests, the server checks their
//! content against its policies and fans each accepted message out to every
//! connected client.
//!
//! The library holds the values of the protocol and their encoding as
//! frames of bytes, the policies for messages and usernames, and the three
//! parts that decide what the server does: the listener, which hands out
//! ids; the handler of one connection; and the broadcaster, which owns the
//! registry of clients. None of them touches a socket: each is handed what
//! happened and answers with what is to be done.

use vstd::prelude::*;

pub mod address;
pub mod broadcast;
pub mod client;
pub mod client_listener;
pub mod codec;
pub mod config;
pub mod frame;
pub mod guidelines;
pub mod message;
pub mod read;
pub mod read_write_streams;
pub mod request;
pub mod response;
pub mod text;
pub mod user;
pub mod value;
pub mod wire;
pub mod write;

verus! {

/// The views of the items of `items`, in their order.
pub open spec fn views<T: View>(items: Seq<T>) -> Seq<T::V> {
    Seq::new(items.len(), |i: int| items[i]@)
}

} // verus!
