use chat_core::broadcast::{Broadcast, BroadcastAction, BroadcastMessage, Broadcaster};
use chat_core::message::Message;
use chat_core::response::Response;
use chat_core::user::{User, Username};
use chat_core::value::Value;

const A: usize = 1;
const B: usize = 2;
const C: usize = 3;

fn from(id: usize, text: &str) -> Message {
    let user = User::builder().username(Username::new(Value::from("user"))).id(id).build();
    Message::builder().from_who(user).payload(Value::from(text)).build()
}

fn with_clients(ids: &[usize]) -> Broadcaster {
    let mut broadcaster = Broadcaster::default();
    for id in ids {
        assert_eq!(broadcaster.handle(BroadcastMessage::AddClient(*id)), BroadcastAction::Attach(*id));
    }
    broadcaster
}

/// Performs the deliveries of `actions` on sinks of which `broken` fails,
/// and gives what each of `ids` has received.
fn perform(actions: &[BroadcastAction], ids: &[usize], broken: usize) -> Vec<Vec<Response>> {
    let mut received: Vec<Vec<Response>> = ids.iter().map(|_| Vec::new()).collect();
    for action in actions {
        if let BroadcastAction::Deliver { recipients, response } = action {
            for recipient in recipients {
                if *recipient == broken {
                    continue;
                }
                let at = ids.iter().position(|id| id == recipient).unwrap();
                received[at].push(response.clone());
            }
        }
    }
    received
}

#[test]
fn nobody_is_registered_at_first() {
    let broadcaster = Broadcaster::default();
    assert!(broadcaster.clients().is_empty());
    assert!(!broadcaster.is_registered(A));
}

#[test]
fn a_message_goes_to_every_registered_client() {
    let mut broadcaster = with_clients(&[A, B, C]);
    let action = broadcaster.handle(BroadcastMessage::ChatMessage(from(A, "hello")));
    assert_eq!(
        action,
        BroadcastAction::Deliver { recipients: vec![A, B, C], response: Ok(from(A, "hello")) }
    );
    assert_eq!(broadcaster.clients(), &vec![A, B, C]);
}

#[test]
fn a_failed_delivery_does_not_stop_the_others() {
    let mut broadcaster = with_clients(&[A, B, C]);
    let actions = broadcaster.run(vec![
        BroadcastMessage::ChatMessage(from(A, "first")),
        BroadcastMessage::ChatMessage(from(A, "second")),
    ]);
    let received = perform(&actions, &[A, B, C], B);
    let both: Vec<Response> = vec![Ok(from(A, "first")), Ok(from(A, "second"))];
    assert_eq!(received[0], both);
    assert!(received[1].is_empty());
    assert_eq!(received[2], both);
    assert_eq!(broadcaster.clients(), &vec![A, B, C]);
    assert!(broadcaster.is_registered(B));
}

#[test]
fn messages_are_taken_first_in_first_out() {
    let mut broadcaster = Broadcaster::default();
    let actions = broadcaster.run(vec![
        BroadcastMessage::ChatMessage(from(A, "to nobody")),
        BroadcastMessage::AddClient(A),
        BroadcastMessage::ChatMessage(from(A, "to a")),
        BroadcastMessage::AddClient(B),
        BroadcastMessage::ChatMessage(from(B, "to a and b")),
        BroadcastMessage::RemoveClient(A),
        BroadcastMessage::ChatMessage(from(B, "to b")),
    ]);
    assert_eq!(
        actions,
        vec![
            BroadcastAction::Deliver { recipients: vec![], response: Ok(from(A, "to nobody")) },
            BroadcastAction::Attach(A),
            BroadcastAction::Deliver { recipients: vec![A], response: Ok(from(A, "to a")) },
            BroadcastAction::Attach(B),
            BroadcastAction::Deliver { recipients: vec![A, B], response: Ok(from(B, "to a and b")) },
            BroadcastAction::Detach(A),
            BroadcastAction::Deliver { recipients: vec![B], response: Ok(from(B, "to b")) },
        ]
    );
    assert_eq!(broadcaster.clients(), &vec![B]);
}

#[test]
fn an_empty_queue_changes_nothing() {
    let mut broadcaster = with_clients(&[C, A]);
    assert_eq!(broadcaster.run(vec![]), vec![]);
    assert_eq!(broadcaster.clients(), &vec![C, A]);
}

#[test]
fn a_client_is_registered_once() {
    let mut broadcaster = with_clients(&[A, B]);
    assert_eq!(broadcaster.handle(BroadcastMessage::AddClient(A)), BroadcastAction::Attach(A));
    assert_eq!(broadcaster.clients(), &vec![A, B]);
    let action = broadcaster.handle(BroadcastMessage::ChatMessage(from(B, "once")));
    assert_eq!(
        action,
        BroadcastAction::Deliver { recipients: vec![A, B], response: Ok(from(B, "once")) }
    );
}

#[test]
fn a_removed_client_gets_nothing_more() {
    let mut broadcaster = with_clients(&[A, B, C]);
    assert_eq!(broadcaster.handle(BroadcastMessage::RemoveClient(B)), BroadcastAction::Detach(B));
    assert!(!broadcaster.is_registered(B));
    assert!(broadcaster.is_registered(A));
    assert!(broadcaster.is_registered(C));
    assert_eq!(broadcaster.clients(), &vec![A, C]);
    assert_eq!(broadcaster.handle(BroadcastMessage::RemoveClient(B)), BroadcastAction::Detach(B));
    assert_eq!(broadcaster.clients(), &vec![A, C]);
    assert_eq!(broadcaster.handle(BroadcastMessage::AddClient(B)), BroadcastAction::Attach(B));
    assert_eq!(broadcaster.clients(), &vec![A, C, B]);
}

#[test]
fn broadcasting_reaches_the_registered_clients() {
    let mut broadcaster = with_clients(&[C, B]);
    assert_eq!(
        broadcaster.broadcast(from(C, "news")),
        BroadcastAction::Deliver { recipients: vec![C, B], response: Ok(from(C, "news")) }
    );
    assert_eq!(broadcaster.clients(), &vec![C, B]);
}

#[test]
fn a_copy_of_a_control_message() {
    for message in [
        BroadcastMessage::ChatMessage(from(A, "copy")),
        BroadcastMessage::AddClient(A),
        BroadcastMessage::RemoveClient(B),
    ] {
        assert_eq!(message.clone(), message);
    }
}
