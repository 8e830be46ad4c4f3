//! Users, their names, and the policy for names.

use crate::address::PeerAddr;
use crate::guidelines::AgainstGuidelines;
use crate::text::{contains_blank, has_blank, decimal, push_decimal};
use crate::value::{Value, ValueView};
use vstd::prelude::*;

verus! {

/// The policy that a new username is checked against.
#[derive(Debug, Clone, Copy, PartialEq, Eq, Structural)]
pub struct UsernameGuidelines {
    max_length: usize,
    min_length: usize,
    whitespace: bool,
    text_only: bool,
}

impl Default for UsernameGuidelines {
    /// Names of three to ten characters, without blanks, text only.
    fn default() -> (r: Self)
        ensures
            r.max_length() == 10,
            r.min_length() == 3,
            !r.whitespace(),
            r.text_only(),
    {
        Self { max_length: 10, min_length: 3, whitespace: false, text_only: true }
    }
}

impl UsernameGuidelines {
    /// The greatest number of characters that a name may have.
    pub closed spec fn spec_max_length(&self) -> usize {
        self.max_length
    }

    /// The least number of characters that a name must have.
    pub closed spec fn spec_min_length(&self) -> usize {
        self.min_length
    }

    /// Whether a name may hold blanks.
    pub closed spec fn spec_whitespace(&self) -> bool {
        self.whitespace
    }

    /// Whether a name must be text.
    pub closed spec fn spec_text_only(&self) -> bool {
        self.text_only
    }

    /// A policy with the given limits.
    pub fn new(max_length: usize, min_length: usize, whitespace: bool, text_only: bool) -> (r:
        Self)
        ensures
            r.max_length() == max_length,
            r.min_length() == min_length,
            r.whitespace() == whitespace,
            r.text_only() == text_only,
    {
        Self { max_length, min_length, whitespace, text_only }
    }

    /// The greatest number of characters that a name may have.
    #[verifier::when_used_as_spec(spec_max_length)]
    pub fn max_length(&self) -> (r: usize)
        ensures
            r == self.max_length(),
    {
        self.max_length
    }

    /// The least number of characters that a name must have.
    #[verifier::when_used_as_spec(spec_min_length)]
    pub fn min_length(&self) -> (r: usize)
        ensures
            r == self.min_length(),
    {
        self.min_length
    }

    /// Whether a name may hold blanks.
    #[verifier::when_used_as_spec(spec_whitespace)]
    pub fn whitespace(&self) -> (r: bool)
        ensures
            r == self.whitespace(),
    {
        self.whitespace
    }

    /// Whether a name must be text.
    #[verifier::when_used_as_spec(spec_text_only)]
    pub fn text_only(&self) -> (r: bool)
        ensures
            r == self.text_only(),
    {
        self.text_only
    }
}

/// Why a username was turned down.
#[derive(Debug, Clone, Copy, PartialEq, Eq, Structural)]
pub enum UsernameError {
    TextOnly,
    TooLong,
    TooShort,
    Whitespace,
}

/// The first rule of `guidelines` that the name `name` breaks. A text name
/// is checked for being too long, then too short, then for blanks; any other
/// value is turned down only where the policy asks for text.
pub open spec fn username_violation(name: ValueView, guidelines: UsernameGuidelines) -> Option<
    UsernameError,
> {
    match name {
        ValueView::String(text) => {
            if text.len() > guidelines.max_length() {
                Some(UsernameError::TooLong)
            } else if text.len() < guidelines.min_length() {
                Some(UsernameError::TooShort)
            } else if !guidelines.whitespace() && has_blank(text) {
                Some(UsernameError::Whitespace)
            } else {
                None
            }
        },
        _ => if guidelines.text_only() {
            Some(UsernameError::TextOnly)
        } else {
            None
        },
    }
}

/// The length boundary. A name of exactly the greatest length is not too
/// long, and is accepted where it is long enough and holds no blank that the
/// policy forbids; a name of one character more is too long, whatever else
/// holds of it.
pub proof fn lemma_length_boundary(text: Seq<char>, guidelines: UsernameGuidelines)
    ensures
        text.len() == guidelines.max_length() + 1 ==> username_violation(
            ValueView::String(text),
            guidelines,
        ) == Some(UsernameError::TooLong),
        text.len() == guidelines.max_length() && guidelines.min_length()
            <= guidelines.max_length() && (guidelines.whitespace() || !has_blank(text))
            ==> username_violation(ValueView::String(text), guidelines) is None,
{
}

/// Under a policy that asks for text, whatever is not text is turned down
/// for that, and for nothing else.
pub proof fn lemma_text_only(name: ValueView, guidelines: UsernameGuidelines)
    requires
        guidelines.text_only(),
        !name.is_text(),
    ensures
        username_violation(name, guidelines) == Some(UsernameError::TextOnly),
{
}

/// The name that a user is shown under.
#[derive(Debug, PartialEq, Eq)]
pub struct Username {
    name: Value,
}

impl View for Username {
    type V = ValueView;

    closed spec fn view(&self) -> ValueView {
        self.name@
    }
}

impl Clone for Username {
    fn clone(&self) -> (r: Self)
        ensures
            r@ == self@,
    {
        Username { name: self.name.clone() }
    }
}

impl Default for Username {
    /// The empty text.
    fn default() -> (r: Self)
        ensures
            r@ == ValueView::String(Seq::empty()),
    {
        Self { name: Value::String(String::new()) }
    }
}

impl Username {
    /// The username that holds `name`.
    pub fn new(name: Value) -> (r: Self)
        ensures
            r@ == name@,
    {
        Self { name }
    }

    /// The value that the name holds.
    pub fn value(&self) -> (r: &Value)
        ensures
            r@ == self@,
    {
        &self.name
    }

    /// The name as it is shown.
    pub fn to_text(&self) -> (r: String)
        ensures
            r@ == self@.text(),
    {
        self.name.to_text()
    }
}

impl AgainstGuidelines<UsernameGuidelines> for Username {
    type Error = UsernameError;

    open spec fn violation(&self, guidelines: &UsernameGuidelines) -> Option<UsernameError> {
        username_violation(self@, *guidelines)
    }

    fn against_guidelines(self, guidelines: &UsernameGuidelines) -> (r: Result<
        Self,
        UsernameError,
    >) {
        match &self.name {
            Value::String(name) => {
                let length: usize = name.as_str().unicode_len();
                if length > guidelines.max_length() {
                    return Err(UsernameError::TooLong);
                } else if length < guidelines.min_length() {
                    return Err(UsernameError::TooShort);
                } else if !guidelines.whitespace() && contains_blank(name.as_str()) {
                    return Err(UsernameError::Whitespace);
                }
            },
            _ => {
                if guidelines.text_only() {
                    return Err(UsernameError::TextOnly);
                }
            },
        }
        Ok(self)
    }
}

/// Someone who is connected: a name, the id given at connect time, and, on
/// the server only, the addresses of the two ends that the user is reached
/// through.
#[derive(Debug, PartialEq, Eq)]
pub struct User {
    username: Username,
    id: usize,
    addresses: Option<(PeerAddr, PeerAddr)>,
}

/// What a `User` holds, as mathematical data.
pub struct UserView {
    pub username: ValueView,
    pub id: usize,
    pub addresses: Option<(PeerAddr, PeerAddr)>,
}

impl UserView {
    /// The same user without addresses.
    pub open spec fn hidden(self) -> UserView {
        UserView { username: self.username, id: self.id, addresses: None }
    }

    /// The user as shown: the name, then the id in brackets.
    pub open spec fn text(self) -> Seq<char> {
        self.username.text() + " ("@ + decimal(self.id as nat) + ")"@
    }
}

impl View for User {
    type V = UserView;

    closed spec fn view(&self) -> UserView {
        UserView { username: self.username@, id: self.id, addresses: self.addresses }
    }
}

impl Clone for User {
    fn clone(&self) -> (r: Self)
        ensures
            r@ == self@,
    {
        User { username: self.username.clone(), id: self.id, addresses: self.addresses }
    }
}

/// `rand::seq::SliceRandom::choose` on the slice of `names`, with the
/// generator of `rand::thread_rng`. The crate returns `None` for an empty
/// slice and a reference to one of the slice's items otherwise; which one is
/// left open. The generator is seeded from the operating system on a
/// thread's first use and panics if that source cannot be read.
#[verifier::external_body]
fn choose_name(names: &Vec<String>) -> (chosen: Option<&String>)
    ensures
        match chosen {
            None => names@.len() == 0,
            Some(name) => exists|i: int| 0 <= i < names@.len() && *name == names@[i],
        },
{
    rand::seq::SliceRandom::choose(names.as_slice(), &mut rand::thread_rng())
}

impl User {
    /// Starts a user with an empty name, id zero and no addresses.
    pub fn builder() -> (r: UserBuilder)
        ensures
            r@ == (UserView {
                username: ValueView::String(Seq::empty()),
                id: 0,
                addresses: None,
            }),
    {
        UserBuilder::default()
    }

    /// One of `names`, picked at random.
    pub fn random_name<'a>(names: &'a Vec<String>) -> (r: &'a str)
        requires
            names@.len() > 0,
        ensures
            exists|i: int| 0 <= i < names@.len() && r@ == names@[i]@,
    {
        match choose_name(names) {
            Some(name) => name.as_str(),
            None => vstd::pervasive::unreached(),
        }
    }

    /// A copy of the user with the addresses cleared, as it is shown to
    /// other clients.
    pub fn hide_addr(&self) -> (r: User)
        ensures
            r@ == self@.hidden(),
    {
        let mut new = self.clone();
        new.addresses = None;
        new
    }

    pub fn username(&self) -> (r: &Username)
        ensures
            r@ == self@.username,
    {
        &self.username
    }

    pub fn set_username(&mut self, username: Username)
        ensures
            final(self)@ == (UserView { username: username@, ..old(self)@ }),
    {
        self.username = username
    }

    pub fn id(&self) -> (r: usize)
        ensures
            r == self@.id,
    {
        self.id
    }

    pub fn addrs(&self) -> (r: &Option<(PeerAddr, PeerAddr)>)
        ensures
            *r == self@.addresses,
    {
        &self.addresses
    }

    /// Appends the user as shown to `out`.
    pub fn push_text_to(&self, out: &mut String)
        ensures
            final(out)@ == old(out)@ + self@.text(),
    {
        self.username.value().push_text_to(out);
        out.append(" (");
        push_decimal(out, self.id as u64);
        out.append(")");
        assert(out@ == old(out)@ + self@.text());
    }

    /// The user as shown: the name, then the id in brackets.
    pub fn to_text(&self) -> (r: String)
        ensures
            r@ == self@.text(),
    {
        let mut out = String::new();
        self.push_text_to(&mut out);
        assert(Seq::<char>::empty() + self@.text() == self@.text());
        out
    }
}

/// Collects the parts of a `User`.
pub struct UserBuilder {
    username: Username,
    id: usize,
    addresses: Option<(PeerAddr, PeerAddr)>,
}

impl View for UserBuilder {
    type V = UserView;

    closed spec fn view(&self) -> UserView {
        UserView { username: self.username@, id: self.id, addresses: self.addresses }
    }
}

impl Default for UserBuilder {
    fn default() -> (r: Self)
        ensures
            r@ == (UserView {
                username: ValueView::String(Seq::empty()),
                id: 0,
                addresses: None,
            }),
    {
        UserBuilder { username: Username::default(), id: 0, addresses: None }
    }
}

impl UserBuilder {
    pub fn username(self, username: Username) -> (r: UserBuilder)
        ensures
            r@ == (UserView { username: username@, ..self@ }),
    {
        let mut builder = self;
        builder.username = username;
        builder
    }

    pub fn id(self, id: usize) -> (r: UserBuilder)
        ensures
            r@ == (UserView { id: id, ..self@ }),
    {
        let mut builder = self;
        builder.id = id;
        builder
    }

    pub fn addresses(self, addresses: Option<(PeerAddr, PeerAddr)>) -> (r: UserBuilder)
        ensures
            r@ == (UserView { addresses: addresses, ..self@ }),
    {
        let mut builder = self;
        builder.addresses = addresses;
        builder
    }

    pub fn build(self) -> (r: User)
        ensures
            r@ == self@,
    {
        User { username: self.username, id: self.id, addresses: self.addresses }
    }
}

} // verus!
