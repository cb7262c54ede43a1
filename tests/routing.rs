use std::sync::mpsc::{channel, Receiver};

use relay::handler::{
    delivery_response, Connection, ReceiveEvent, ReceiveStep, SendEvent, SendStep, TransmitService,
};
use relay::pool::RoutingPool;
use relay::protocol::Data;
use relay::pto::{BaseProto, Proto};
use relay::response::Status;
use relay::server::Server;

fn frame(text: &[u8]) -> [u8; 1024] {
    let mut buf = [0u8; 1024];
    buf[..text.len()].copy_from_slice(text);
    buf
}

fn msg(from: &str, to: &str, body: &str) -> BaseProto {
    BaseProto::create(from.to_string(), body.to_string(), to.to_string())
}

fn drain(rx: &Receiver<BaseProto>) -> Vec<String> {
    let mut out = Vec::new();
    while let Ok(m) = rx.try_recv() {
        out.push(format!("{}-{}:{}", m.get_sender(), m.get_receiver(), m.get_body()));
    }
    out
}

fn send_connection(to: &str) -> Connection {
    let mut c = Connection::new();
    let role = c.handshake(format!("SEND;{}", to).as_bytes());
    assert!(matches!(role, Ok(TransmitService::Send(_))));
    c
}

fn receive_connection(alias: &str) -> Connection {
    let mut c = Connection::new();
    let role = c.handshake(format!("RECEIVE;{}", alias).as_bytes());
    assert!(matches!(role, Ok(TransmitService::Receive(_))));
    c
}

#[test]
fn pool_lookup_finds_first_registered() {
    let mut pool: RoutingPool<u32> = RoutingPool::new();
    pool.register(1, "bob".to_string(), 10);
    pool.register(2, "carol".to_string(), 20);
    pool.register(3, "bob".to_string(), 30);
    assert_eq!(pool.lookup(&"bob".to_string()), Some(&10));
    assert_eq!(pool.lookup(&"carol".to_string()), Some(&20));
    assert_eq!(pool.lookup(&"dave".to_string()), None);
    let gone = pool.remove(1).unwrap();
    assert_eq!((gone.get_id(), gone.get_alias().as_str(), gone.endpoint), (1, "bob", 10));
    assert_eq!(pool.lookup(&"bob".to_string()), Some(&30));
    assert_eq!(pool.lookup(&"carol".to_string()), Some(&20));
    assert!(pool.remove(1).is_none());
    assert_eq!(pool.len(), 2);
}

#[test]
fn register_issues_increasing_ids() {
    let mut server = Server::new("localhost".to_string(), 5000);
    let (tx, _rx) = channel();
    let a = server.register_receive("bob".to_string(), tx.clone()).unwrap();
    let b = server.register_send("bob".to_string()).unwrap();
    let c = server.register_receive("carol".to_string(), tx).unwrap();
    assert_eq!(a, 1);
    assert!(a < b && b < c);
    server.remove_send(b);
    let d = server.register_send("carol".to_string()).unwrap();
    assert!(c < d);
}

#[test]
fn lookup_after_register_reaches_channel_in_order() {
    let mut server = Server::new("localhost".to_string(), 5000);
    let (tx, rx) = channel();
    server.register_receive("bob".to_string(), tx).unwrap();
    assert!(server.lookup_receiver(&"bob".to_string()).is_some());
    assert_eq!(server.dispatch(msg("alice", "bob", "one")), Status::Success);
    assert_eq!(server.dispatch(msg("alice", "bob", "two")), Status::Success);
    assert_eq!(drain(&rx), vec!["alice-bob:one", "alice-bob:two"]);
}

#[test]
fn unknown_receiver_gets_invalid_identifier() {
    let mut server = Server::new("localhost".to_string(), 5000);
    let (tx, rx) = channel();
    server.register_receive("carol".to_string(), tx).unwrap();
    let status = server.dispatch(msg("alice", "bob", "hello"));
    assert_eq!(status, Status::InvalidIdentifier);
    assert!(delivery_response(status).starts_with("InvalidIdentifier;"));
    assert!(drain(&rx).is_empty());
}

#[test]
fn closed_channel_gets_server_error() {
    let mut server = Server::new("localhost".to_string(), 5000);
    let (tx, rx) = channel();
    server.register_receive("bob".to_string(), tx).unwrap();
    drop(rx);
    assert_eq!(server.dispatch(msg("alice", "bob", "hello")), Status::ServerError);
}

#[test]
fn end_to_end_send_to_receive() {
    let mut server = Server::new("localhost".to_string(), 5000);
    let mut a = receive_connection("bob");
    let (tx, rx) = channel();
    server.register_receive("bob".to_string(), tx).unwrap();
    let mut b = send_connection("bob");
    server.register_send("bob".to_string()).unwrap();

    let step = b.on_send_event(SendEvent::Frame(Data::Utf8(frame(b"alice-bob\nhello"))));
    let m = match step {
        SendStep::Deliver(m) => m,
        _ => panic!("expected a delivery"),
    };
    let reply = delivery_response(server.dispatch(m));
    assert!(reply.starts_with("Success;"));

    let got = rx.try_recv().unwrap();
    match a.on_receive_event(ReceiveEvent::Message(got)) {
        ReceiveStep::Write(bytes) => assert_eq!(bytes, b"alice-bob\nhello".to_vec()),
        ReceiveStep::Terminate => panic!("expected a write"),
    }
    assert!(a.on_write(true));
    assert!(!a.is_closed());
}

#[test]
fn send_worker_steps() {
    let mut b = send_connection("bob");
    assert!(matches!(b.on_send_event(SendEvent::ReadFailed), SendStep::RetryRead));
    assert!(matches!(
        b.on_send_event(SendEvent::Frame(Data::Utf8(frame(b"no header here")))),
        SendStep::Discard(_)
    ));
    assert!(!b.is_closed());
    assert!(matches!(b.on_send_event(SendEvent::PeerClosed), SendStep::Terminate));
    assert!(b.is_closed());
    assert!(!b.close());
}

#[test]
fn disconnect_removes_only_own_entry() {
    let mut server = Server::new("localhost".to_string(), 5000);
    let (tx, rx) = channel();
    server.register_receive("bob".to_string(), tx).unwrap();
    let mut b = send_connection("bob");
    let b_id = server.register_send("bob".to_string()).unwrap();
    let other = server.register_send("bob".to_string()).unwrap();

    assert!(matches!(b.on_send_event(SendEvent::PeerClosed), SendStep::Terminate));
    let removed = server.remove_send(b_id).unwrap();
    assert_eq!(removed.id, b_id);
    assert!(server.remove_send(b_id).is_none());
    assert_eq!(server.remove_send(other).unwrap().id, other);
    assert_eq!(server.dispatch(msg("alice", "bob", "still here")), Status::Success);
    assert_eq!(drain(&rx), vec!["alice-bob:still here"]);
}

#[test]
fn receive_worker_stops_on_closed_channel_or_failed_write() {
    let mut a = receive_connection("bob");
    assert!(!a.on_write(false));
    assert!(a.is_closed());

    let mut c = receive_connection("carol");
    assert!(matches!(c.on_receive_event(ReceiveEvent::ChannelClosed), ReceiveStep::Terminate));
    assert!(c.is_closed());
    assert!(!c.close());
}

#[test]
fn failed_handshake_closes_connection() {
    let mut c = Connection::new();
    assert!(c.handshake(b"HELLO;there").is_err());
    assert!(c.is_closed());
    let mut d = Connection::new();
    assert!(d.close());
    assert!(d.is_closed());
}

#[test]
fn two_senders_to_one_receiver() {
    let mut server = Server::new("localhost".to_string(), 5000);
    let (tx, rx) = channel();
    server.register_receive("bob".to_string(), tx).unwrap();
    let mut s1 = send_connection("bob");
    let mut s2 = send_connection("bob");
    let mut replies = Vec::new();
    for (conn, text) in [(&mut s1, &b"alice-bob\nfrom alice"[..]), (&mut s2, &b"carol-bob\nfrom carol"[..])] {
        if let SendStep::Deliver(m) = conn.on_send_event(SendEvent::Frame(Data::Utf8(frame(text)))) {
            replies.push(delivery_response(server.dispatch(m)));
        }
    }
    assert_eq!(replies.len(), 2);
    assert!(replies.iter().all(|r| r.starts_with("Success;")));
    let mut got = drain(&rx);
    got.sort();
    assert_eq!(got, vec!["alice-bob:from alice", "carol-bob:from carol"]);
}
