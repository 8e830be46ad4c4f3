//! Chat messages and the policy for their content.

use crate::guidelines::AgainstGuidelines;
use crate::text::{all_whitespace, first_char, is_all_whitespace, is_whitespace_char, last_char};
use crate::user::{User, UserView};
use crate::value::{Value, ValueView};
use vstd::prelude::*;

verus! {

/// Why a message was turned down.
#[derive(Debug, Clone, Copy, PartialEq, Eq, Structural)]
pub enum MessageError {
    Empty,
    JustWhitespace,
    LeadingWhitespace,
    TrailingWhitespace,
    TextOnly,
}

/// The policy that the content of a message is checked against. Each flag
/// says whether messages of that kind are allowed.
#[derive(Debug, Clone, Copy, PartialEq, Eq, Structural)]
pub struct MessageGuidelines {
    message_size: usize,
    just_whitespace: bool,
    trailing_whitespace: bool,
    leading_whitespace: bool,
    empty: bool,
    text_only: bool,
}

impl Default for MessageGuidelines {
    /// Text only, neither empty nor blank, no whitespace at either end, and
    /// a size of 4000 bytes.
    fn default() -> (r: Self)
        ensures
            r.message_size() == 4000,
            !r.just_whitespace(),
            !r.trailing_whitespace(),
            !r.leading_whitespace(),
            !r.empty(),
            r.text_only(),
    {
        Self {
            message_size: 4000,
            just_whitespace: false,
            trailing_whitespace: false,
            leading_whitespace: false,
            empty: false,
            text_only: true,
        }
    }
}

impl MessageGuidelines {
    /// The greatest size of a message, in bytes.
    pub closed spec fn spec_message_size(&self) -> usize {
        self.message_size
    }

    /// Whether a message may consist of whitespace alone.
    pub closed spec fn spec_just_whitespace(&self) -> bool {
        self.just_whitespace
    }

    /// Whether a message may end in whitespace.
    pub closed spec fn spec_trailing_whitespace(&self) -> bool {
        self.trailing_whitespace
    }

    /// Whether a message may begin with whitespace.
    pub closed spec fn spec_leading_whitespace(&self) -> bool {
        self.leading_whitespace
    }

    /// Whether a message may be empty.
    pub closed spec fn spec_empty(&self) -> bool {
        self.empty
    }

    /// Whether a message must be text.
    pub closed spec fn spec_text_only(&self) -> bool {
        self.text_only
    }

    /// A policy with the given size and flags.
    pub fn new(
        message_size: usize,
        just_whitespace: bool,
        trailing_whitespace: bool,
        leading_whitespace: bool,
        empty: bool,
        text_only: bool,
    ) -> (r: Self)
        ensures
            r.message_size() == message_size,
            r.just_whitespace() == just_whitespace,
            r.trailing_whitespace() == trailing_whitespace,
            r.leading_whitespace() == leading_whitespace,
            r.empty() == empty,
            r.text_only() == text_only,
    {
        Self {
            message_size,
            just_whitespace,
            trailing_whitespace,
            leading_whitespace,
            empty,
            text_only,
        }
    }

    /// The greatest size of a message, in bytes.
    #[verifier::when_used_as_spec(spec_message_size)]
    pub fn message_size(&self) -> (r: usize)
        ensures
            r == self.message_size(),
    {
        self.message_size
    }

    /// Whether a message may consist of whitespace alone.
    #[verifier::when_used_as_spec(spec_just_whitespace)]
    pub fn just_whitespace(&self) -> (r: bool)
        ensures
            r == self.just_whitespace(),
    {
        self.just_whitespace
    }

    /// Whether a message may end in whitespace.
    #[verifier::when_used_as_spec(spec_trailing_whitespace)]
    pub fn trailing_whitespace(&self) -> (r: bool)
        ensures
            r == self.trailing_whitespace(),
    {
        self.trailing_whitespace
    }

    /// Whether a message may begin with whitespace.
    #[verifier::when_used_as_spec(spec_leading_whitespace)]
    pub fn leading_whitespace(&self) -> (r: bool)
        ensures
            r == self.leading_whitespace(),
    {
        self.leading_whitespace
    }

    /// Whether a message may be empty.
    #[verifier::when_used_as_spec(spec_empty)]
    pub fn empty(&self) -> (r: bool)
        ensures
            r == self.empty(),
    {
        self.empty
    }

    /// Whether a message must be text.
    #[verifier::when_used_as_spec(spec_text_only)]
    pub fn text_only(&self) -> (r: bool)
        ensures
            r == self.text_only(),
    {
        self.text_only
    }
}

/// The first rule of `guidelines` that the content `payload` breaks. Text is
/// checked for being empty, then for being whitespace alone, then for
/// whitespace at its end, then at its start, and the first check that
/// applies decides; the empty text has no first or last character, so the
/// last two checks pass it. Any other value is turned down only where the
/// policy asks for text.
pub open spec fn message_violation(payload: ValueView, guidelines: MessageGuidelines) -> Option<
    MessageError,
> {
    match payload {
        ValueView::String(text) => {
            if !guidelines.empty() && text.len() == 0 {
                Some(MessageError::Empty)
            } else if !guidelines.just_whitespace() && all_whitespace(text) {
                Some(MessageError::JustWhitespace)
            } else if !guidelines.trailing_whitespace() && text.len() > 0 && is_whitespace_char(
                text.last(),
            ) {
                Some(MessageError::TrailingWhitespace)
            } else if !guidelines.leading_whitespace() && text.len() > 0 && is_whitespace_char(
                text[0],
            ) {
                Some(MessageError::LeadingWhitespace)
            } else {
                None
            }
        },
        _ => if guidelines.text_only() {
            Some(MessageError::TextOnly)
        } else {
            None
        },
    }
}

/// Precedence of the checks. Where empty messages are not allowed, the empty
/// text is turned down as empty, although it is also nothing but whitespace;
/// and of text that both ends and begins with whitespace, the end is named.
pub proof fn lemma_precedence(text: Seq<char>, guidelines: MessageGuidelines)
    ensures
        !guidelines.empty() && text.len() == 0 ==> message_violation(
            ValueView::String(text),
            guidelines,
        ) == Some(MessageError::Empty),
        text.len() == 0 ==> all_whitespace(text),
        text.len() > 0 && !all_whitespace(text) && !guidelines.trailing_whitespace()
            && is_whitespace_char(text.last()) ==> message_violation(
            ValueView::String(text),
            guidelines,
        ) == Some(MessageError::TrailingWhitespace),
{
}

/// Under a policy that asks for text, whatever is not text is turned down
/// for that, and for nothing else.
pub proof fn lemma_text_only(payload: ValueView, guidelines: MessageGuidelines)
    requires
        guidelines.text_only(),
        !payload.is_text(),
    ensures
        message_violation(payload, guidelines) == Some(MessageError::TextOnly),
{
}

/// A chat message: who it is from, and its content.
#[derive(Debug, PartialEq, Eq)]
pub struct Message {
    from: User,
    payload: Value,
}

/// What a `Message` holds, as mathematical data.
pub struct MessageView {
    pub from: UserView,
    pub payload: ValueView,
}

impl MessageView {
    /// The message as shown: the sender, a colon, and the content.
    pub open spec fn text(self) -> Seq<char> {
        self.from.text() + ": "@ + self.payload.text()
    }
}

impl View for Message {
    type V = MessageView;

    closed spec fn view(&self) -> MessageView {
        MessageView { from: self.from@, payload: self.payload@ }
    }
}

impl Clone for Message {
    fn clone(&self) -> (r: Self)
        ensures
            r@ == self@,
    {
        Message { from: self.from.clone(), payload: self.payload.clone() }
    }
}

impl Message {
    /// Starts a message of which neither part is set.
    pub fn builder() -> (r: MessageBuilder)
        ensures
            r.from_view() is None,
            r.payload_view() is None,
    {
        MessageBuilder::default()
    }

    /// Who the message is from.
    pub fn from(&self) -> (r: &User)
        ensures
            r@ == self@.from,
    {
        &self.from
    }

    /// The content of the message.
    pub fn payload(&self) -> (r: &Value)
        ensures
            r@ == self@.payload,
    {
        &self.payload
    }

    /// The message as shown: the sender, a colon, and the content.
    pub fn to_text(&self) -> (r: String)
        ensures
            r@ == self@.text(),
    {
        let mut out = String::new();
        self.from.push_text_to(&mut out);
        out.append(": ");
        self.payload.push_text_to(&mut out);
        assert(out@ == self@.text());
        out
    }
}

impl AgainstGuidelines<MessageGuidelines> for Message {
    type Error = MessageError;

    open spec fn violation(&self, guidelines: &MessageGuidelines) -> Option<MessageError> {
        message_violation(self@.payload, *guidelines)
    }

    fn against_guidelines(self, guidelines: &MessageGuidelines) -> (r: Result<
        Self,
        MessageError,
    >) {
        match &self.payload {
            Value::String(text_message) => {
                let text = text_message.as_str();
                if !guidelines.empty() && text.unicode_len() == 0 {
                    return Err(MessageError::Empty);
                } else if !guidelines.just_whitespace() && is_all_whitespace(text) {
                    return Err(MessageError::JustWhitespace);
                } else if !guidelines.trailing_whitespace() && ends_in_whitespace(text) {
                    return Err(MessageError::TrailingWhitespace);
                } else if !guidelines.leading_whitespace() && starts_with_whitespace(text) {
                    return Err(MessageError::LeadingWhitespace);
                }
            },
            _ => {
                if guidelines.text_only() {
                    return Err(MessageError::TextOnly);
                }
            },
        }
        Ok(self)
    }
}

fn ends_in_whitespace(text: &str) -> (r: bool)
    ensures
        r == (text@.len() > 0 && is_whitespace_char(text@.last())),
{
    match last_char(text) {
        Some(c) => c.is_whitespace(),
        None => false,
    }
}

fn starts_with_whitespace(text: &str) -> (r: bool)
    ensures
        r == (text@.len() > 0 && is_whitespace_char(text@[0])),
{
    match first_char(text) {
        Some(c) => c.is_whitespace(),
        None => false,
    }
}

/// Collects the parts of a `Message`.
pub struct MessageBuilder {
    from: Option<User>,
    payload: Option<Value>,
}

impl Default for MessageBuilder {
    fn default() -> (r: Self)
        ensures
            r.from_view() is None,
            r.payload_view() is None,
    {
        MessageBuilder { from: None, payload: None }
    }
}

impl MessageBuilder {
    /// The sender set so far.
    pub closed spec fn from_view(&self) -> Option<UserView> {
        match self.from {
            Some(user) => Some(user@),
            None => None,
        }
    }

    /// The content set so far.
    pub closed spec fn payload_view(&self) -> Option<ValueView> {
        match self.payload {
            Some(value) => Some(value@),
            None => None,
        }
    }

    pub fn from_who(self, from: User) -> (r: Self)
        ensures
            r.from_view() == Some(from@),
            r.payload_view() == self.payload_view(),
    {
        let mut builder = self;
        builder.from = Some(from);
        builder
    }

    pub fn payload(self, payload: Value) -> (r: Self)
        ensures
            r.from_view() == self.from_view(),
            r.payload_view() == Some(payload@),
    {
        let mut builder = self;
        builder.payload = Some(payload);
        builder
    }

    /// The message, once both parts are set.
    pub fn build(self) -> (r: Message)
        requires
            self.from_view() is Some,
            self.payload_view() is Some,
        ensures
            r@ == (MessageView { from: self.from_view()->0, payload: self.payload_view()->0 }),
    {
        Message { from: self.from.unwrap(), payload: self.payload.unwrap() }
    }
}

} // verus!
