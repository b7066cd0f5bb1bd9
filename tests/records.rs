use file_net::listener::{sweep, ListenerState, MyTcplistener, RecordAction};
use file_net::signal::TCPSignal;

fn record(ip: [u8; 4], port: u16, state: ListenerState) -> MyTcplistener {
    let mut r = MyTcplistener::from_octets(ip);
    r.port = port;
    r.state = state;
    r
}

#[test]
fn address_text_is_dotted_decimal() {
    assert_eq!(record([192, 168, 1, 20], 8080, ListenerState::READY).to_string(), "192.168.1.20:8080");
    assert_eq!(MyTcplistener::null().to_string(), "0.0.0.0:0");
    assert_eq!(record([255, 0, 10, 9], 65535, ListenerState::READY).to_string(), "255.0.10.9:65535");
}

#[test]
fn listener_lifecycle() {
    let mut r = record([127, 0, 0, 1], 0, ListenerState::TOLISTEN);
    assert_eq!(r.handle_listener(false), RecordAction::Bind);
    r.on_bound(Some(4000));
    assert_eq!(r.state, ListenerState::LISTENING);
    assert_eq!(r.port, 4000);
    assert!(r.task);
    assert_eq!(r.handle_listener(false), RecordAction::Idle);
    assert_eq!(r.handle_listener(true), RecordAction::Accepted);
    assert_eq!(r.state, ListenerState::ACCEPTED);
    assert!(!r.task);
    r.state = ListenerState::TOSTOP;
    assert_eq!(r.handle_listener(false), RecordAction::DropTask);
    assert_eq!((r.state, r.port), (ListenerState::READY, 0));
}

#[test]
fn unset_address_goes_back_to_ready() {
    let mut r = record([0, 0, 0, 0], 0, ListenerState::TOLISTEN);
    assert_eq!(r.handle_listener(false), RecordAction::Idle);
    assert_eq!(r.state, ListenerState::READY);
    let mut c = record([10, 0, 0, 1], 0, ListenerState::TOLISTEN);
    assert_eq!(c.handle_connector(false), RecordAction::Idle);
    assert_eq!(c.state, ListenerState::READY);
}

#[test]
fn failed_bind_deletes_and_missing_task_fails() {
    let mut r = record([127, 0, 0, 1], 0, ListenerState::TOLISTEN);
    r.on_bound(None);
    assert_eq!(r.state, ListenerState::TODELETE);
    let mut l = record([127, 0, 0, 1], 5, ListenerState::LISTENING);
    assert_eq!(l.handle_listener(true), RecordAction::Idle);
    assert_eq!(l.state, ListenerState::FAIL);
}

#[test]
fn connector_lifecycle() {
    let mut c = record([10, 0, 0, 1], 9000, ListenerState::TOLISTEN);
    assert_eq!(c.handle_connector(false), RecordAction::Connect);
    c.on_connected(true);
    assert_eq!(c.state, ListenerState::LISTENING);
    assert_eq!(c.handle_connector(true), RecordAction::Accepted);
    assert_eq!(c.state, ListenerState::ACCEPTED);
    let mut d = record([10, 0, 0, 1], 9000, ListenerState::TOLISTEN);
    d.on_connected(false);
    assert_eq!(d.state, ListenerState::FAIL);
}

#[test]
fn handshake_needs_an_accept() {
    let mut r = record([10, 0, 0, 1], 1, ListenerState::ACCEPTED);
    assert!(r.on_handshake(&TCPSignal::ac().to_bytes()));
    assert_eq!(r.state, ListenerState::ACCEPTED);
    assert!(!r.on_handshake(&TCPSignal::Parden.to_bytes()));
    assert_eq!(r.state, ListenerState::FAIL);
    let mut e = record([10, 0, 0, 1], 1, ListenerState::ACCEPTED);
    assert!(!e.on_handshake(&[]));
}

#[test]
fn greeting_names_the_host() {
    let r = record([10, 0, 0, 7], 99, ListenerState::ACCEPTED).with_name("eth0".to_string());
    assert_eq!(r.name, "eth0");
    match r.greeting() {
        TCPSignal::Accept { ip_addr, name } => {
            assert_eq!(ip_addr, "10.0.0.7:99");
            assert_eq!(name, "host");
        }
        other => panic!("{:?}", other),
    }
}

#[test]
fn sweep_removes_deleted_records() {
    let v = vec![
        record([1, 1, 1, 1], 1, ListenerState::READY),
        record([2, 2, 2, 2], 2, ListenerState::TODELETE),
        record([3, 3, 3, 3], 3, ListenerState::LISTENING),
    ];
    let out = sweep(v);
    assert_eq!(out.len(), 2);
    assert_eq!(out[0].ip4, [1, 1, 1, 1]);
    assert_eq!(out[1].ip4, [3, 3, 3, 3]);
    let none = sweep(vec![record([2, 2, 2, 2], 2, ListenerState::TODELETE)]);
    assert_eq!(none.len(), 1);
    assert_eq!(none[0].ip4, [0, 0, 0, 0]);
    assert_eq!(none[0].state, ListenerState::READY);
}
