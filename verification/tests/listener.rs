use chat_core::client_listener::ClientListener;
use chat_core::config::{NetConfig, ServerConfig, SystemConfig};
use chat_core::message::MessageGuidelines;
use chat_core::user::UsernameGuidelines;

fn starting_at(key_start: usize) -> ClientListener {
    ClientListener::new(ServerConfig {
        net: NetConfig::default(),
        system: SystemConfig::new(4, key_start, false),
        message_guidelines: MessageGuidelines::default(),
        username_guidelines: UsernameGuidelines::default(),
    })
}

#[test]
fn the_default_settings() {
    let config = ServerConfig::default();
    assert_eq!(config.net.ip(), "127.0.0.1:1234");
    assert_eq!(config.net.read_port(), 4321);
    assert_eq!(config.system.threads(), 20);
    assert_eq!(config.system.key_start(), 0);
    assert!(config.system.verbose());
    assert_eq!(config.message_guidelines, MessageGuidelines::default());
    assert_eq!(config.username_guidelines, UsernameGuidelines::default());
    assert_eq!(config.net, NetConfig::default());
    assert_eq!(config.system, SystemConfig::default());
    assert_eq!(config.clone(), config);
}

#[test]
fn settings_of_ones_own() {
    let net = NetConfig::new(String::from("0.0.0.0:9000"), 9001);
    assert_eq!(net.ip(), "0.0.0.0:9000");
    assert_eq!(net.read_port(), 9001);
    assert_eq!(net.clone(), net);
    let system = SystemConfig::new(3, 100, false);
    assert_eq!(system.threads(), 3);
    assert_eq!(system.key_start(), 100);
    assert!(!system.verbose());
}

#[test]
fn ids_are_counted_after_the_start() {
    let mut listener = ClientListener::new(ServerConfig::default());
    assert_eq!(listener.last_key(), 0);
    assert_eq!(listener.accept(true), Some(1));
    assert_eq!(listener.accept(true), Some(2));
    assert_eq!(listener.last_key(), 2);
    assert_eq!(listener.config(), &ServerConfig::default());
}

#[test]
fn a_connection_that_failed_takes_an_id_too() {
    let mut listener = starting_at(10);
    assert_eq!(listener.accept(true), Some(11));
    assert_eq!(listener.accept(false), None);
    assert_eq!(listener.last_key(), 12);
    assert_eq!(listener.accept(true), Some(13));
}

#[test]
fn connections_in_a_row() {
    let mut listener = starting_at(100);
    let answers = listener.run(&vec![true, false, false, true, true]);
    assert_eq!(answers, vec![Some(101), None, None, Some(104), Some(105)]);
    assert_eq!(listener.last_key(), 105);
    assert_eq!(listener.run(&vec![]), vec![]);
    assert_eq!(listener.last_key(), 105);
}

#[test]
fn no_two_connections_share_an_id() {
    let mut listener = starting_at(0);
    let answers = listener.run(&vec![true; 200]);
    for (i, answer) in answers.iter().enumerate() {
        assert_eq!(*answer, Some(i + 1));
    }
}

#[test]
fn ids_up_to_the_greatest() {
    let mut listener = starting_at(usize::MAX - 1);
    assert_eq!(listener.accept(true), Some(usize::MAX));
}
