//! The content that a message or a username carries.

use crate::text::{push_signed_decimal, signed_decimal};
use vstd::prelude::*;
use vstd::std_specs::convert::{FromSpecImpl, TryFromSpecImpl};

verus! {

/// A value could not be turned into the kind of data that was asked for.
#[derive(Debug, PartialEq, Eq)]
pub enum ValueError {
    /// Holds the name of the kind that the value really has.
    CannotConvertValue(String),
}

impl ValueError {
    /// The name of the kind that the value has.
    pub open spec fn kind(&self) -> Seq<char> {
        match self {
            ValueError::CannotConvertValue(kind) => kind@,
        }
    }
}

/// The payload of a message or of a username.
///
/// A `Float` is kept as the bit pattern of an IEEE 754 double: the relay
/// passes it on and never computes with it.
#[derive(Debug, PartialEq, Eq)]
pub enum Value {
    String(String),
    Integer(i64),
    Float(u64),
    Boolean(bool),
    Image(Vec<u8>),
    File(Vec<u8>),
}

/// What a `Value` holds, as mathematical data.
pub enum ValueView {
    String(Seq<char>),
    Integer(i64),
    Float(u64),
    Boolean(bool),
    Image(Seq<u8>),
    File(Seq<u8>),
}

impl View for Value {
    type V = ValueView;

    open spec fn view(&self) -> ValueView {
        match self {
            Value::String(s) => ValueView::String(s@),
            Value::Integer(i) => ValueView::Integer(*i),
            Value::Float(bits) => ValueView::Float(*bits),
            Value::Boolean(b) => ValueView::Boolean(*b),
            Value::Image(bytes) => ValueView::Image(bytes@),
            Value::File(bytes) => ValueView::File(bytes@),
        }
    }
}

impl ValueView {
    /// Whether the value is text.
    pub open spec fn is_text(self) -> bool {
        self is String
    }

    /// The text shown for the value: text as it is, an integer in decimal, a
    /// boolean as `true` or `false`, and a fixed marker for the kinds that
    /// have no textual form.
    pub open spec fn text(self) -> Seq<char> {
        match self {
            ValueView::String(s) => s,
            ValueView::Integer(i) => signed_decimal(i as int),
            ValueView::Float(_) => "<float>"@,
            ValueView::Boolean(b) => if b {
                "true"@
            } else {
                "false"@
            },
            ValueView::Image(_) => "<image>"@,
            ValueView::File(_) => "<file>"@,
        }
    }

    /// The name under which a failed conversion to text reports the value's
    /// kind; text itself has none.
    pub open spec fn kind_name(self) -> Seq<char> {
        match self {
            ValueView::String(_) => Seq::empty(),
            ValueView::Integer(_) => "int"@,
            ValueView::Float(_) => "float"@,
            ValueView::Boolean(_) => "bool"@,
            ValueView::Image(_) => "image"@,
            ValueView::File(_) => "file"@,
        }
    }
}

impl Clone for Value {
    fn clone(&self) -> (r: Self)
        ensures
            r@ == self@,
    {
        match self {
            Value::String(s) => Value::String(s.clone()),
            Value::Integer(i) => Value::Integer(*i),
            Value::Float(bits) => Value::Float(*bits),
            Value::Boolean(b) => Value::Boolean(*b),
            Value::Image(bytes) => {
                let copy = bytes.clone();
                assert(copy@ =~= bytes@);
                Value::Image(copy)
            },
            Value::File(bytes) => {
                let copy = bytes.clone();
                assert(copy@ =~= bytes@);
                Value::File(copy)
            },
        }
    }
}

impl Value {
    /// Appends the text shown for the value to `out`.
    pub fn push_text_to(&self, out: &mut String)
        ensures
            final(out)@ == old(out)@ + self@.text(),
    {
        match self {
            Value::String(s) => out.append(s.as_str()),
            Value::Integer(i) => push_signed_decimal(out, *i),
            Value::Float(_) => out.append("<float>"),
            Value::Boolean(b) => {
                if *b {
                    out.append("true")
                } else {
                    out.append("false")
                }
            },
            Value::Image(_) => out.append("<image>"),
            Value::File(_) => out.append("<file>"),
        }
    }

    /// The text shown for the value.
    pub fn to_text(&self) -> (r: String)
        ensures
            r@ == self@.text(),
    {
        let mut out = String::new();
        self.push_text_to(&mut out);
        assert(Seq::<char>::empty() + self@.text() == self@.text());
        out
    }
}

impl From<String> for Value {
    fn from(value: String) -> (r: Self) {
        Value::String(value)
    }
}

impl FromSpecImpl<String> for Value {
    open spec fn obeys_from_spec() -> bool {
        true
    }

    open spec fn from_spec(value: String) -> Self {
        Value::String(value)
    }
}

impl From<&str> for Value {
    fn from(value: &str) -> (r: Self)
        ensures
            r@ == ValueView::String(value@),
    {
        Value::String(value.to_owned())
    }
}

impl FromSpecImpl<&str> for Value {
    open spec fn obeys_from_spec() -> bool {
        false
    }

    open spec fn from_spec(value: &str) -> Self {
        arbitrary()
    }
}

impl From<i64> for Value {
    fn from(value: i64) -> (r: Self) {
        Value::Integer(value)
    }
}

impl FromSpecImpl<i64> for Value {
    open spec fn obeys_from_spec() -> bool {
        true
    }

    open spec fn from_spec(value: i64) -> Self {
        Value::Integer(value)
    }
}

impl From<bool> for Value {
    fn from(value: bool) -> (r: Self) {
        Value::Boolean(value)
    }
}

impl FromSpecImpl<bool> for Value {
    open spec fn obeys_from_spec() -> bool {
        true
    }

    open spec fn from_spec(value: bool) -> Self {
        Value::Boolean(value)
    }
}

impl TryFrom<Value> for String {
    type Error = ValueError;

    /// Text is handed out as it is; every other kind is refused under its
    /// name.
    fn try_from(value: Value) -> (r: Result<String, ValueError>)
        ensures
            match value {
                Value::String(s) => r == Ok::<String, ValueError>(s),
                _ => r matches Err(e) && e.kind() == value@.kind_name(),
            },
    {
        match value {
            Value::String(s) => Ok(s),
            Value::Integer(_) => Err(ValueError::CannotConvertValue("int".to_owned())),
            Value::Float(_) => Err(ValueError::CannotConvertValue("float".to_owned())),
            Value::Boolean(_) => Err(ValueError::CannotConvertValue("bool".to_owned())),
            Value::Image(_) => Err(ValueError::CannotConvertValue("image".to_owned())),
            Value::File(_) => Err(ValueError::CannotConvertValue("file".to_owned())),
        }
    }
}

impl TryFromSpecImpl<Value> for String {
    open spec fn obeys_try_from_spec() -> bool {
        false
    }

    open spec fn try_from_spec(value: Value) -> Result<Self, ValueError> {
        arbitrary()
    }
}

} // verus!
