use chat_core::guidelines::AgainstGuidelines;
use chat_core::message::{Message, MessageError, MessageGuidelines};
use chat_core::user::{User, Username, UsernameError, UsernameGuidelines};
use chat_core::value::Value;

fn sender() -> User {
    User::builder().id(7).username(Username::new(Value::from("alice"))).build()
}

fn message(payload: Value) -> Message {
    Message::builder().from_who(sender()).payload(payload).build()
}

fn text(payload: &str) -> Message {
    message(Value::from(payload))
}

/// Policy that allows everything but what the flags given as `false` name.
fn policy(just_whitespace: bool, trailing: bool, leading: bool, empty: bool) -> MessageGuidelines {
    MessageGuidelines::new(4000, just_whitespace, trailing, leading, empty, true)
}

#[test]
fn empty_text_is_empty_not_just_whitespace() {
    let defaults = MessageGuidelines::default();
    assert_eq!(text("").against_guidelines(&defaults), Err(MessageError::Empty));
}

#[test]
fn blank_text_is_just_whitespace() {
    let defaults = MessageGuidelines::default();
    assert_eq!(text(" \t\n").against_guidelines(&defaults), Err(MessageError::JustWhitespace));
    assert_eq!(text("\u{a0}").against_guidelines(&defaults), Err(MessageError::JustWhitespace));
}

#[test]
fn trailing_whitespace_is_named_before_leading() {
    let defaults = MessageGuidelines::default();
    assert_eq!(text(" hi ").against_guidelines(&defaults), Err(MessageError::TrailingWhitespace));
    assert_eq!(text("hi\n").against_guidelines(&defaults), Err(MessageError::TrailingWhitespace));
    assert_eq!(text(" hi").against_guidelines(&defaults), Err(MessageError::LeadingWhitespace));
}

#[test]
fn good_text_comes_back_unchanged() {
    let defaults = MessageGuidelines::default();
    assert_eq!(text("hello world").against_guidelines(&defaults), Ok(text("hello world")));
    assert_eq!(text("越").against_guidelines(&defaults), Ok(text("越")));
}

#[test]
fn allowed_empty_text_still_counts_as_blank() {
    let guidelines = policy(false, true, true, true);
    assert_eq!(text("").against_guidelines(&guidelines), Err(MessageError::JustWhitespace));
}

#[test]
fn empty_text_has_no_first_or_last_character() {
    let guidelines = policy(true, false, false, true);
    assert_eq!(text("").against_guidelines(&guidelines), Ok(text("")));
}

#[test]
fn each_flag_lifts_its_own_rule() {
    assert_eq!(text("  ").against_guidelines(&policy(true, false, true, true)),
        Err(MessageError::TrailingWhitespace));
    assert_eq!(text("  ").against_guidelines(&policy(true, true, false, true)),
        Err(MessageError::LeadingWhitespace));
    assert_eq!(text("  ").against_guidelines(&policy(true, true, true, true)), Ok(text("  ")));
    assert_eq!(text("a ").against_guidelines(&policy(false, true, false, false)), Ok(text("a ")));
    assert_eq!(text(" a").against_guidelines(&policy(false, false, true, false)), Ok(text(" a")));
}

#[test]
fn message_that_is_not_text() {
    let defaults = MessageGuidelines::default();
    assert_eq!(message(Value::Integer(5)).against_guidelines(&defaults), Err(MessageError::TextOnly));
    assert_eq!(message(Value::Boolean(true)).against_guidelines(&defaults),
        Err(MessageError::TextOnly));
    assert_eq!(message(Value::Image(vec![1, 2])).against_guidelines(&defaults),
        Err(MessageError::TextOnly));
    let any = MessageGuidelines::new(4000, false, false, false, false, false);
    assert_eq!(message(Value::Integer(5)).against_guidelines(&any), Ok(message(Value::Integer(5))));
}

#[test]
fn username_length_boundary() {
    let guidelines = UsernameGuidelines::new(10, 3, false, true);
    let ten = Username::new(Value::from("abcdefghij"));
    let eleven = Username::new(Value::from("abcdefghijk"));
    assert_eq!(ten.clone().against_guidelines(&guidelines), Ok(ten));
    assert_eq!(eleven.against_guidelines(&guidelines), Err(UsernameError::TooLong));
}

#[test]
fn username_length_counts_characters() {
    let defaults = UsernameGuidelines::default();
    let name = Username::new(Value::from("ああああ"));
    assert_eq!(name.clone().against_guidelines(&defaults), Ok(name));
    let short = Username::new(Value::from("ああ"));
    assert_eq!(short.against_guidelines(&defaults), Err(UsernameError::TooShort));
}

#[test]
fn username_too_short() {
    let defaults = UsernameGuidelines::default();
    assert_eq!(Username::new(Value::from("ab")).against_guidelines(&defaults),
        Err(UsernameError::TooShort));
    assert_eq!(Username::default().against_guidelines(&defaults), Err(UsernameError::TooShort));
    let three = Username::new(Value::from("abc"));
    assert_eq!(three.clone().against_guidelines(&defaults), Ok(three));
}

#[test]
fn username_with_blanks() {
    let defaults = UsernameGuidelines::default();
    for name in ["a b c", "ab\tc", "ab\nc", "abc\r"] {
        assert_eq!(Username::new(Value::from(name)).against_guidelines(&defaults),
            Err(UsernameError::Whitespace));
    }
    let allowed = UsernameGuidelines::new(10, 3, true, true);
    let name = Username::new(Value::from("a b c"));
    assert_eq!(name.clone().against_guidelines(&allowed), Ok(name));
}

#[test]
fn username_too_long_is_named_before_blanks() {
    let defaults = UsernameGuidelines::default();
    assert_eq!(Username::new(Value::from("a b c d e f g")).against_guidelines(&defaults),
        Err(UsernameError::TooLong));
}

#[test]
fn username_that_is_not_text() {
    let defaults = UsernameGuidelines::default();
    assert_eq!(Username::new(Value::Integer(5)).against_guidelines(&defaults),
        Err(UsernameError::TextOnly));
    let any = UsernameGuidelines::new(10, 3, false, false);
    let five = Username::new(Value::Integer(5));
    assert_eq!(five.clone().against_guidelines(&any), Ok(five));
}

#[test]
fn default_guidelines() {
    let messages = MessageGuidelines::default();
    assert_eq!(messages.message_size(), 4000);
    assert!(!messages.just_whitespace());
    assert!(!messages.trailing_whitespace());
    assert!(!messages.leading_whitespace());
    assert!(!messages.empty());
    assert!(messages.text_only());
    let names = UsernameGuidelines::default();
    assert_eq!(names.max_length(), 10);
    assert_eq!(names.min_length(), 3);
    assert!(!names.whitespace());
    assert!(names.text_only());
}
