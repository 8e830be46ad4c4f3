use chat_core::address::PeerAddr;
use chat_core::broadcast::BroadcastMessage;
use chat_core::client::{roster, server_user, Client, ClientAction, ClientEvent, Phase};
use chat_core::config::{NetConfig, ServerConfig, SystemConfig};
use chat_core::frame::FrameError;
use chat_core::message::{Message, MessageError, MessageGuidelines};
use chat_core::request::{Request, RequestError};
use chat_core::user::{User, Username, UsernameError, UsernameGuidelines};
use chat_core::value::Value;

const KEY: usize = 5;

fn addresses() -> (PeerAddr, PeerAddr) {
    (PeerAddr::V4 { ip: 0x7f00_0001, port: 4321 }, PeerAddr::V4 { ip: 0x7f00_0001, port: 50000 })
}

fn connected(name: &str) -> ClientEvent {
    ClientEvent::Connected { addresses: Some(addresses()), name: String::from(name) }
}

fn notice(text: &str) -> ClientAction {
    ClientAction::Broadcast(BroadcastMessage::ChatMessage(
        Message::builder().from_who(server_user()).payload(Value::from(text)).build(),
    ))
}

fn add() -> ClientAction {
    ClientAction::Broadcast(BroadcastMessage::AddClient(KEY))
}

fn remove() -> ClientAction {
    ClientAction::Broadcast(BroadcastMessage::RemoveClient(KEY))
}

fn named(name: &str) -> User {
    User::builder().username(Username::new(Value::from(name))).id(KEY).build()
}

fn serving() -> Client {
    let mut client = Client::make_connection(KEY, ServerConfig::default());
    client.step(connected("otter"));
    assert_eq!(client.phase(), Phase::Serving);
    client
}

fn count(actions: &[ClientAction], action: &ClientAction) -> usize {
    actions.iter().filter(|a| *a == action).count()
}

#[test]
fn the_server_speaks_as_server() {
    let server = server_user();
    assert_eq!(server.id(), 0);
    assert_eq!(server.to_text(), "SERVER (0)");
    assert_eq!(server.addrs(), &None);
}

#[test]
fn a_new_handler_waits_for_its_connection() {
    let client = Client::make_connection(KEY, ServerConfig::default());
    assert_eq!(client.key(), KEY);
    assert_eq!(client.phase(), Phase::Connecting);
    assert!(!client.is_closed());
    assert_eq!(client.config(), &ServerConfig::default());
}

#[test]
fn a_newcomer_is_registered_and_announced() {
    let mut client = Client::make_connection(KEY, ServerConfig::default());
    let actions = client.step(connected("otter"));
    assert_eq!(actions, vec![add(), notice("anonymous-otter (5) has joined")]);
    assert_eq!(client.phase(), Phase::Serving);
    assert_eq!(client.user().id(), KEY);
    assert_eq!(client.user().username().to_text(), "anonymous-otter");
    assert_eq!(client.user().addrs(), &Some(addresses()));
}

#[test]
fn a_newcomer_without_addresses_is_turned_away() {
    let mut client = Client::make_connection(KEY, ServerConfig::default());
    let actions =
        client.step(ClientEvent::Connected { addresses: None, name: String::from("otter") });
    assert_eq!(actions, vec![add(), ClientAction::Reply(Err(RequestError::Ip)), remove()]);
    assert!(client.is_closed());
}

#[test]
fn announcing_on_its_own() {
    let client = Client::make_connection(KEY, ServerConfig::default());
    let mut actions = vec![ClientAction::CollectUsers];
    let user = client.initial_connect(Some(addresses()), "newt", &mut actions);
    let expected = User::builder()
        .username(Username::new(Value::from("anonymous-newt")))
        .id(KEY)
        .addresses(Some(addresses()))
        .build();
    assert_eq!(user, Ok(expected));
    assert_eq!(
        actions,
        vec![ClientAction::CollectUsers, add(), notice("anonymous-newt (5) has joined")]
    );
    let mut failed = Vec::new();
    assert_eq!(client.initial_connect(None, "newt", &mut failed), Err(()));
    assert_eq!(failed, vec![add(), ClientAction::Reply(Err(RequestError::Ip))]);
}

#[test]
fn a_good_message_is_broadcast_without_addresses() {
    let mut client = serving();
    let actions = client.step(ClientEvent::Request(Request::SendMessage(Value::from("hi all"))));
    let message =
        Message::builder().from_who(named("anonymous-otter")).payload(Value::from("hi all")).build();
    assert_eq!(actions, vec![ClientAction::Broadcast(BroadcastMessage::ChatMessage(message))]);
    assert_eq!(client.phase(), Phase::Serving);
    assert_eq!(client.user().addrs(), &Some(addresses()));
}

#[test]
fn a_bad_message_is_answered_and_ends_the_session() {
    let cases = [
        (Value::from(""), MessageError::Empty),
        (Value::from("   "), MessageError::JustWhitespace),
        (Value::from("hi "), MessageError::TrailingWhitespace),
        (Value::from(" hi"), MessageError::LeadingWhitespace),
        (Value::Integer(5), MessageError::TextOnly),
    ];
    for (payload, error) in cases {
        let mut client = serving();
        let actions = client.step(ClientEvent::Request(Request::SendMessage(payload)));
        assert_eq!(
            actions,
            vec![ClientAction::Reply(Err(RequestError::Message(error))), remove()]
        );
        assert!(client.is_closed());
    }
}

#[test]
fn a_good_username_is_announced_and_taken_over() {
    let mut client = serving();
    let actions = client.step(ClientEvent::Request(Request::ChangeUserName(Value::from("zoe"))));
    assert_eq!(
        actions,
        vec![notice("Requesting change username. anonymous-otter (5) -> zoe")]
    );
    assert_eq!(client.phase(), Phase::Serving);
    assert_eq!(client.user().to_text(), "zoe (5)");
    assert_eq!(client.user().addrs(), &Some(addresses()));
    let next = client.step(ClientEvent::Request(Request::SendMessage(Value::from("it's me"))));
    let message = Message::builder().from_who(named("zoe")).payload(Value::from("it's me")).build();
    assert_eq!(next, vec![ClientAction::Broadcast(BroadcastMessage::ChatMessage(message))]);
}

#[test]
fn a_bad_username_is_announced_answered_and_ends_the_session() {
    let cases = [
        (Value::from("abcdefghijk"), "abcdefghijk", UsernameError::TooLong),
        (Value::from("ab"), "ab", UsernameError::TooShort),
        (Value::from("a b"), "a b", UsernameError::Whitespace),
        (Value::Integer(5), "5", UsernameError::TextOnly),
        (Value::Image(vec![1]), "<image>", UsernameError::TextOnly),
        (Value::Float(1), "<float>", UsernameError::TextOnly),
        (Value::File(vec![]), "<file>", UsernameError::TextOnly),
        (Value::Boolean(false), "false", UsernameError::TextOnly),
    ];
    for (name, shown, error) in cases {
        let mut client = serving();
        let actions = client.step(ClientEvent::Request(Request::ChangeUserName(name)));
        let text = format!("Requesting change username. anonymous-otter (5) -> {shown}");
        assert_eq!(
            actions,
            vec![
                notice(&text),
                ClientAction::Reply(Err(RequestError::Username(error))),
                remove(),
            ]
        );
        assert!(client.is_closed());
        assert_eq!(client.user().username().to_text(), "anonymous-otter");
    }
}

#[test]
fn the_policies_of_the_handler_are_those_of_its_settings() {
    let config = ServerConfig {
        net: NetConfig::default(),
        system: SystemConfig::default(),
        message_guidelines: MessageGuidelines::new(4000, true, true, true, true, false),
        username_guidelines: UsernameGuidelines::new(20, 1, true, false),
    };
    let mut client = Client::make_connection(KEY, config);
    client.step(connected("otter"));
    let message = client.step(ClientEvent::Request(Request::SendMessage(Value::Integer(5))));
    assert_eq!(message.len(), 1);
    assert_eq!(client.phase(), Phase::Serving);
    client.step(ClientEvent::Request(Request::ChangeUserName(Value::from("a long name"))));
    assert_eq!(client.phase(), Phase::Serving);
    assert_eq!(client.user().to_text(), "a long name (5)");
}

#[test]
fn a_list_of_users_goes_to_the_one_who_asked() {
    let mut client = serving();
    let asked = client.step(ClientEvent::Request(Request::UserList));
    assert_eq!(asked, vec![ClientAction::CollectUsers]);
    assert_eq!(client.phase(), Phase::Listing);
    let users = vec![
        User::builder()
            .username(Username::new(Value::from("ann")))
            .id(1)
            .addresses(Some(addresses()))
            .build(),
        User::builder().username(Username::new(Value::from("bob"))).id(22).build(),
    ];
    let answered = client.step(ClientEvent::Users(users));
    let list = Message::builder()
        .from_who(server_user())
        .payload(Value::from("ann (1)\nbob (22)"))
        .build();
    assert_eq!(answered, vec![ClientAction::Reply(Ok(list))]);
    assert_eq!(client.phase(), Phase::Serving);
}

#[test]
fn the_users_one_on_each_line() {
    let user = |name: &str, id: usize| {
        User::builder().username(Username::new(Value::from(name))).id(id).build()
    };
    assert_eq!(roster(&vec![]), "");
    assert_eq!(roster(&vec![user("ann", 1)]), "ann (1)");
    assert_eq!(roster(&vec![user("ann", 1), user("bob", 2), user("cy", 3)]),
        "ann (1)\nbob (2)\ncy (3)");
}

#[test]
fn a_closed_stream_ends_the_session_without_a_word() {
    let mut client = serving();
    let actions = client.step(ClientEvent::ReadFailed(FrameError::ConnectionClosed));
    assert_eq!(actions, vec![remove()]);
    assert!(client.is_closed());
}

#[test]
fn a_frame_that_cannot_be_read_is_answered_and_ends_the_session() {
    let cases = [
        (FrameError::DecodingError, "the frame could not be decoded"),
        (FrameError::SizeLimitExceeded, "the size limit has been reached"),
    ];
    for (error, reason) in cases {
        let mut client = serving();
        let actions = client.step(ClientEvent::ReadFailed(error));
        assert_eq!(
            actions,
            vec![ClientAction::Reply(Err(RequestError::Bad(String::from(reason)))), remove()]
        );
        assert!(client.is_closed());
    }
}

#[test]
fn a_failed_connection_is_answered_and_ends_the_session() {
    let mut client = serving();
    let actions = client.step(ClientEvent::TransportFailed(String::from("connection reset")));
    assert_eq!(
        actions,
        vec![ClientAction::Reply(Err(RequestError::Bad(String::from("connection reset")))), remove()]
    );
    assert!(client.is_closed());
}

#[test]
fn no_data_yet_changes_nothing() {
    let mut client = serving();
    assert_eq!(client.step(ClientEvent::ReadFailed(FrameError::NoDataYet)), vec![]);
    assert_eq!(client.phase(), Phase::Serving);
}

#[test]
fn an_event_out_of_place_changes_nothing() {
    let mut fresh = Client::make_connection(KEY, ServerConfig::default());
    assert_eq!(fresh.step(ClientEvent::Request(Request::UserList)), vec![]);
    assert_eq!(fresh.step(ClientEvent::ReadFailed(FrameError::ConnectionClosed)), vec![]);
    assert_eq!(fresh.step(ClientEvent::Users(vec![])), vec![]);
    assert_eq!(fresh.phase(), Phase::Connecting);
    let mut client = serving();
    assert_eq!(client.step(connected("again")), vec![]);
    assert_eq!(client.step(ClientEvent::Users(vec![])), vec![]);
    assert_eq!(client.phase(), Phase::Serving);
    assert_eq!(client.user().username().to_text(), "anonymous-otter");
    client.step(ClientEvent::Request(Request::UserList));
    assert_eq!(client.step(ClientEvent::Request(Request::UserList)), vec![]);
    assert_eq!(client.step(ClientEvent::ReadFailed(FrameError::ConnectionClosed)), vec![]);
    assert_eq!(client.phase(), Phase::Listing);
}

#[test]
fn nothing_happens_after_the_end() {
    let mut client = serving();
    client.step(ClientEvent::ReadFailed(FrameError::ConnectionClosed));
    for event in [
        connected("again"),
        ClientEvent::Request(Request::SendMessage(Value::from("hello?"))),
        ClientEvent::ReadFailed(FrameError::DecodingError),
        ClientEvent::TransportFailed(String::from("late")),
        ClientEvent::Users(vec![]),
    ] {
        assert_eq!(client.step(event), vec![]);
        assert!(client.is_closed());
    }
}

#[test]
fn registration_comes_in_pairs_on_every_path() {
    let sessions: Vec<Vec<ClientEvent>> = vec![
        vec![connected("a"), ClientEvent::ReadFailed(FrameError::ConnectionClosed)],
        vec![
            connected("a"),
            ClientEvent::Request(Request::SendMessage(Value::from("one"))),
            ClientEvent::Request(Request::ChangeUserName(Value::from("two"))),
            ClientEvent::Request(Request::UserList),
            ClientEvent::Users(vec![]),
            ClientEvent::ReadFailed(FrameError::NoDataYet),
            ClientEvent::ReadFailed(FrameError::ConnectionClosed),
            ClientEvent::Request(Request::SendMessage(Value::from("too late"))),
        ],
        vec![connected("a"), ClientEvent::TransportFailed(String::from("reset"))],
        vec![connected("a"), ClientEvent::ReadFailed(FrameError::DecodingError)],
        vec![connected("a"), ClientEvent::ReadFailed(FrameError::SizeLimitExceeded)],
        vec![connected("a"), ClientEvent::Request(Request::SendMessage(Value::from(" ")))],
        vec![connected("a"), ClientEvent::Request(Request::ChangeUserName(Value::from("x")))],
        vec![ClientEvent::Connected { addresses: None, name: String::from("a") }],
        vec![
            ClientEvent::Request(Request::UserList),
            connected("a"),
            connected("b"),
            ClientEvent::ReadFailed(FrameError::ConnectionClosed),
            ClientEvent::ReadFailed(FrameError::ConnectionClosed),
        ],
    ];
    for events in sessions {
        let mut client = Client::make_connection(KEY, ServerConfig::default());
        let actions = client.run(events);
        assert!(client.is_closed());
        assert_eq!(count(&actions, &add()), 1);
        assert_eq!(count(&actions, &remove()), 1);
        assert_eq!(actions.first(), Some(&add()));
        assert_eq!(actions.last(), Some(&remove()));
    }
}

#[test]
fn a_session_that_goes_on_is_registered_and_not_removed() {
    let mut client = Client::make_connection(KEY, ServerConfig::default());
    let actions = client.run(vec![
        connected("a"),
        ClientEvent::Request(Request::SendMessage(Value::from("still here"))),
    ]);
    assert_eq!(client.phase(), Phase::Serving);
    assert_eq!(count(&actions, &add()), 1);
    assert_eq!(count(&actions, &remove()), 0);
    assert_eq!(actions.len(), 3);
    let none = Client::make_connection(KEY, ServerConfig::default()).run(vec![]);
    assert_eq!(none, vec![]);
}

#[test]
fn a_whole_session_in_order() {
    let mut client = Client::make_connection(KEY, ServerConfig::default());
    let actions = client.run(vec![
        connected("otter"),
        ClientEvent::Request(Request::ChangeUserName(Value::from("zoe"))),
        ClientEvent::Request(Request::SendMessage(Value::from("hi"))),
        ClientEvent::Request(Request::SendMessage(Value::from(""))),
    ]);
    let hi = Message::builder().from_who(named("zoe")).payload(Value::from("hi")).build();
    assert_eq!(
        actions,
        vec![
            add(),
            notice("anonymous-otter (5) has joined"),
            notice("Requesting change username. anonymous-otter (5) -> zoe"),
            ClientAction::Broadcast(BroadcastMessage::ChatMessage(hi)),
            ClientAction::Reply(Err(RequestError::Message(MessageError::Empty))),
            remove(),
        ]
    );
}
