use chat_core::address::PeerAddr;
use chat_core::message::Message;
use chat_core::user::{User, UserBuilder, Username};
use chat_core::value::{Value, ValueError};

fn v4(port: u16) -> PeerAddr {
    PeerAddr::V4 { ip: 0x7f00_0001, port }
}

#[test]
fn text_of_each_kind_of_value() {
    assert_eq!(Value::from("hello").to_text(), "hello");
    assert_eq!(Value::from(String::from("héllo")).to_text(), "héllo");
    assert_eq!(Value::Boolean(true).to_text(), "true");
    assert_eq!(Value::from(false).to_text(), "false");
    assert_eq!(Value::Float(0x3ff0_0000_0000_0000).to_text(), "<float>");
    assert_eq!(Value::Image(vec![1, 2, 3]).to_text(), "<image>");
    assert_eq!(Value::File(vec![]).to_text(), "<file>");
}

#[test]
fn integers_in_decimal() {
    assert_eq!(Value::Integer(0).to_text(), "0");
    assert_eq!(Value::Integer(7).to_text(), "7");
    assert_eq!(Value::Integer(10).to_text(), "10");
    assert_eq!(Value::from(1234567890i64).to_text(), "1234567890");
    assert_eq!(Value::Integer(-1).to_text(), "-1");
    assert_eq!(Value::Integer(-120).to_text(), "-120");
    assert_eq!(Value::Integer(i64::MAX).to_text(), "9223372036854775807");
    assert_eq!(Value::Integer(i64::MIN).to_text(), "-9223372036854775808");
}

#[test]
fn text_is_appended_not_replaced() {
    let mut out = String::from("n = ");
    Value::Integer(42).push_text_to(&mut out);
    assert_eq!(out, "n = 42");
}

#[test]
fn values_from_plain_data() {
    assert_eq!(Value::from("a"), Value::String(String::from("a")));
    assert_eq!(Value::from(String::from("a")), Value::String(String::from("a")));
    assert_eq!(Value::from(5i64), Value::Integer(5));
    assert_eq!(Value::from(true), Value::Boolean(true));
}

#[test]
fn only_text_turns_into_a_string() {
    assert_eq!(String::try_from(Value::from("abc")), Ok(String::from("abc")));
    let refused = |kind: &str| Err(ValueError::CannotConvertValue(String::from(kind)));
    assert_eq!(String::try_from(Value::Integer(1)), refused("int"));
    assert_eq!(String::try_from(Value::Float(0)), refused("float"));
    assert_eq!(String::try_from(Value::Boolean(false)), refused("bool"));
    assert_eq!(String::try_from(Value::Image(vec![])), refused("image"));
    assert_eq!(String::try_from(Value::File(vec![9])), refused("file"));
}

#[test]
fn clone_of_a_value() {
    for value in [
        Value::from("text"),
        Value::Integer(-3),
        Value::Float(17),
        Value::Boolean(true),
        Value::Image(vec![1, 2]),
        Value::File(vec![3]),
    ] {
        assert_eq!(value.clone(), value);
    }
}

#[test]
fn a_built_user() {
    let addresses = Some((v4(1234), v4(4321)));
    let user = User::builder()
        .username(Username::new(Value::from("alice")))
        .id(12)
        .addresses(addresses)
        .build();
    assert_eq!(user.id(), 12);
    assert_eq!(user.username(), &Username::new(Value::from("alice")));
    assert_eq!(user.addrs(), &addresses);
    assert_eq!(user.to_text(), "alice (12)");
}

#[test]
fn a_user_built_from_nothing() {
    let user = UserBuilder::default().build();
    assert_eq!(user.id(), 0);
    assert_eq!(user.username(), &Username::default());
    assert_eq!(user.username().value(), &Value::String(String::new()));
    assert_eq!(user.addrs(), &None);
    assert_eq!(user.to_text(), " (0)");
}

#[test]
fn hiding_addresses_keeps_the_rest() {
    let user = User::builder()
        .username(Username::new(Value::from("bob")))
        .id(3)
        .addresses(Some((v4(1), v4(2))))
        .build();
    let hidden = user.hide_addr();
    assert_eq!(hidden.addrs(), &None);
    assert_eq!(hidden.id(), 3);
    assert_eq!(hidden.username(), user.username());
    assert_eq!(user.addrs(), &Some((v4(1), v4(2))));
    assert_eq!(hidden.hide_addr(), hidden);
}

#[test]
fn a_new_username_replaces_the_old() {
    let mut user = User::builder().username(Username::new(Value::from("bob"))).id(3).build();
    user.set_username(Username::new(Value::from("robert")));
    assert_eq!(user.username().to_text(), "robert");
    assert_eq!(user.id(), 3);
    assert_eq!(user.to_text(), "robert (3)");
}

#[test]
fn a_random_name_is_one_of_the_names() {
    let names = vec![String::from("ant"), String::from("bee"), String::from("cat")];
    for _ in 0..50 {
        let name = User::random_name(&names);
        assert!(names.iter().any(|n| n == name));
    }
    let one = vec![String::from("only")];
    assert_eq!(User::random_name(&one), "only");
}

#[test]
fn a_message_as_shown() {
    let from = User::builder().username(Username::new(Value::from("alice"))).id(4).build();
    let message = Message::builder().from_who(from.clone()).payload(Value::from("hi all")).build();
    assert_eq!(message.to_text(), "alice (4): hi all");
    assert_eq!(message.from(), &from);
    assert_eq!(message.payload(), &Value::from("hi all"));
    let number = Message::builder().payload(Value::Integer(-5)).from_who(from).build();
    assert_eq!(number.to_text(), "alice (4): -5");
}

#[test]
fn the_port_of_an_address() {
    assert_eq!(v4(80).port(), 80);
    assert_eq!(v4(80).with_port(4321), PeerAddr::V4 { ip: 0x7f00_0001, port: 4321 });
    let v6 = PeerAddr::V6 { ip: 1, port: 9, flowinfo: 5, scope_id: 6 };
    assert_eq!(v6.port(), 9);
    assert_eq!(v6.with_port(10), PeerAddr::V6 { ip: 1, port: 10, flowinfo: 5, scope_id: 6 });
}
