use bytes::BytesMut;
use peer_node::connection::{read_outcome, ConnectionError};
use peer_node::message::{Message, MessageCodec};
use peer_node::peer::{Peer, PeerAddr, Reaction};
use peer_node::registry::{Command, Registry, RegistryAction};
use peer_node::state::State;

fn spawned(action: RegistryAction) -> Peer {
    match action {
        RegistryAction::Spawn(p) => p,
        other => panic!("unexpected {:?}", other),
    }
}

#[test]
fn two_sessions_are_independent() {
    let a = PeerAddr::new(0x7F00_0001, 8080);
    let b = PeerAddr::new(0x7F00_0001, 8081);
    let mut reg = Registry::new();
    let mut p1 = spawned(reg.handle(Command::AddPeer(a)));
    let mut p2 = spawned(reg.handle(Command::AddPeer(b)));
    assert_eq!(reg.sessions(), &vec![a, b]);

    p1.ping().unwrap();
    p2.ping().unwrap();
    p1.receive(Message::Pong).unwrap();
    assert_eq!(p1.heartbeat(), Ok(Message::Heartbeat(0)));
    assert_eq!(p1.heartbeat(), Ok(Message::Heartbeat(1)));
    assert_eq!(p2.heartbeat(), Ok(Message::Heartbeat(0)));

    // a malformed frame on the second link ends that session only
    let mut garbage = BytesMut::from(&[0x00u8, 1, 2][..]);
    let decoded = MessageCodec::new().decode(&mut garbage);
    let outcome = read_outcome(decoded.transpose());
    assert_eq!(outcome, Err(ConnectionError::InvalidEncoding));
    p2.close();

    assert_eq!(p2.state(), State::Closed);
    assert_eq!(p1.state(), State::Connected);
    assert_eq!(p1.clock(), 2);
    assert_eq!(p2.clock(), 1);
    assert!(matches!(p1.receive(Message::Ping), Ok(Reaction::Reply(Message::Pong))));
    assert_eq!(p1.heartbeat(), Ok(Message::Heartbeat(2)));
}

#[test]
fn same_address_twice_gets_two_records() {
    let a = PeerAddr::new(1, 2);
    let mut reg = Registry::new();
    spawned(reg.handle(Command::AddPeer(a)));
    spawned(reg.handle(Command::AddPeer(a)));
    assert_eq!(reg.sessions().len(), 2);
}

#[test]
fn inbound_message_is_observed() {
    let a = PeerAddr::new(10, 20);
    let mut reg = Registry::new();
    match reg.handle(Command::MessageReceived(a, Message::Info("hi".to_string()))) {
        RegistryAction::Observe(from, m) => {
            assert_eq!(from, a);
            assert_eq!(m, Message::Info("hi".to_string()));
        }
        other => panic!("unexpected {:?}", other),
    }
    assert!(reg.sessions().is_empty());
}

#[test]
fn quit_stops_and_later_events_are_ignored() {
    let mut reg = Registry::new();
    assert!(reg.is_open());
    assert!(matches!(reg.handle(Command::Quit), RegistryAction::Stop));
    assert!(!reg.is_open());
    assert!(matches!(
        reg.handle(Command::AddPeer(PeerAddr::new(1, 1))),
        RegistryAction::Ignore
    ));
    assert!(reg.sessions().is_empty());
}
