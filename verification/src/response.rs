//! What the server sends to a client.

use crate::message::{Message, MessageView};
use crate::request::{RequestError, RequestErrorView};
use vstd::prelude::*;

verus! {

/// A message for the client, or the reason for which its request was not
/// served.
pub type Response = Result<Message, RequestError>;

/// What a `Response` holds, as mathematical data.
pub type ResponseView = Result<MessageView, RequestErrorView>;

/// The view of a response: the view of the message or of the error.
pub open spec fn response_view(response: Response) -> ResponseView {
    match response {
        Ok(message) => Ok(message@),
        Err(error) => Err(error@),
    }
}

} // verus!
