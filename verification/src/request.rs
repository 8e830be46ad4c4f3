//! What a client asks of the server, and how the server turns a request
//! down.

use crate::message::MessageError;
use crate::user::UsernameError;
use crate::value::{Value, ValueView};
use vstd::prelude::*;

verus! {

/// Why a request was not served.
#[derive(Debug, PartialEq, Eq)]
pub enum RequestError {
    /// The addresses of the client's streams could not be had.
    Ip,
    /// The request could not be read; holds the reason.
    Bad(String),
    /// The new username breaks the policy for names.
    Username(UsernameError),
    /// The message breaks the policy for messages.
    Message(MessageError),
}

/// What a `RequestError` holds, as mathematical data.
pub enum RequestErrorView {
    Ip,
    Bad(Seq<char>),
    Username(UsernameError),
    Message(MessageError),
}

impl View for RequestError {
    type V = RequestErrorView;

    open spec fn view(&self) -> RequestErrorView {
        match self {
            RequestError::Ip => RequestErrorView::Ip,
            RequestError::Bad(reason) => RequestErrorView::Bad(reason@),
            RequestError::Username(error) => RequestErrorView::Username(*error),
            RequestError::Message(error) => RequestErrorView::Message(*error),
        }
    }
}

impl Clone for RequestError {
    fn clone(&self) -> (r: Self)
        ensures
            r@ == self@,
    {
        match self {
            RequestError::Ip => RequestError::Ip,
            RequestError::Bad(reason) => RequestError::Bad(reason.clone()),
            RequestError::Username(error) => RequestError::Username(*error),
            RequestError::Message(error) => RequestError::Message(*error),
        }
    }
}

/// What a client asks of the server.
#[derive(Debug, PartialEq, Eq)]
pub enum Request {
    /// Treat the payload as a message.
    SendMessage(Value),
    /// Treat the payload as a new username.
    ChangeUserName(Value),
    /// Give the client a list of the users connected to the server.
    UserList,
}

/// What a `Request` holds, as mathematical data.
pub enum RequestView {
    SendMessage(ValueView),
    ChangeUserName(ValueView),
    UserList,
}

impl View for Request {
    type V = RequestView;

    open spec fn view(&self) -> RequestView {
        match self {
            Request::SendMessage(payload) => RequestView::SendMessage(payload@),
            Request::ChangeUserName(payload) => RequestView::ChangeUserName(payload@),
            Request::UserList => RequestView::UserList,
        }
    }
}

impl Clone for Request {
    fn clone(&self) -> (r: Self)
        ensures
            r@ == self@,
    {
        match self {
            Request::SendMessage(payload) => Request::SendMessage(payload.clone()),
            Request::ChangeUserName(payload) => Request::ChangeUserName(payload.clone()),
            Request::UserList => Request::UserList,
        }
    }
}

} // verus!
