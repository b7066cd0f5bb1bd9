use file_net::codec::frame;
use file_net::file::{FileBlocks, FileState};
use file_net::link::{ConnectLink, LinkStep, MyConnectCommand, Role, Wait, WriteFor};
use file_net::signal::TCPSignal;

fn framed(s: &TCPSignal) -> Vec<u8> {
    frame(&s.to_bytes())
}

fn expect_send(step: LinkStep, pause: u64, s: &TCPSignal) {
    match step {
        LinkStep::Send { pause_ms, bytes } => {
            assert_eq!(pause_ms, pause);
            assert_eq!(bytes, framed(s));
        }
        other => panic!("{:?}", other),
    }
}

#[test]
fn four_failed_recoveries_tear_the_link_down_once() {
    let mut link = ConnectLink::new(Role::Connector);
    let mut teardowns = 0;
    let mut pauses = 0;
    for _ in 0..4 {
        expect_send(link.on_read_failure(), 0, &TCPSignal::Parden);
        match link.on_write(false) {
            LinkStep::Pause { ms } => {
                assert_eq!(ms, 2000);
                pauses += 1;
            }
            LinkStep::Teardown => teardowns += 1,
            other => panic!("{:?}", other),
        }
    }
    assert_eq!(pauses, 3);
    assert_eq!(teardowns, 1);
    assert!(link.is_stopped());
    assert_eq!(link.errors(), 4);
}

#[test]
fn successful_recovery_keeps_reading() {
    let mut link = ConnectLink::new(Role::Listener);
    link.on_read_failure();
    assert!(matches!(link.on_write(true), LinkStep::Read));
    assert_eq!(link.errors(), 0);
    assert_eq!(link.wait(), Wait::Frame);
}

#[test]
fn keepalive_is_answered_after_a_pause_and_resets_errors() {
    let mut link = ConnectLink::new(Role::Connector);
    link.on_read_failure();
    link.on_write(false);
    assert_eq!(link.errors(), 1);
    expect_send(link.on_signal(TCPSignal::ac()), 1000, &TCPSignal::ac());
    assert_eq!(link.errors(), 0);
    assert_eq!(link.wait(), Wait::Write(WriteFor::Ignored));
    assert!(matches!(link.on_write(false), LinkStep::Read));
    assert_eq!(link.errors(), 0);
}

#[test]
fn listener_request_leads_to_accepting_a_stream() {
    let mut link = ConnectLink::new(Role::Listener);
    assert!(link.takes_commands());
    assert!(matches!(link.on_command(MyConnectCommand::AddTcpStream), LinkStep::Read));
    assert!(!link.takes_commands());
    expect_send(link.on_signal(TCPSignal::ac()), 0, &TCPSignal::AddTcpStream);
    assert!(matches!(link.on_write(true), LinkStep::Read));
    expect_send(link.on_signal(TCPSignal::ac()), 0, &TCPSignal::ac());
    assert!(matches!(link.on_write(true), LinkStep::AcceptStream));
    assert_eq!(link.wait(), Wait::Pairing);
    assert!(matches!(link.on_pairing(true), LinkStep::Read));
    assert!(link.takes_commands());
}

#[test]
fn failed_request_write_is_retried_on_the_next_accept() {
    let mut link = ConnectLink::new(Role::Listener);
    link.on_command(MyConnectCommand::AddTcpStream);
    link.on_signal(TCPSignal::ac());
    assert!(matches!(link.on_write(false), LinkStep::Read));
    assert_eq!(link.errors(), 1);
    expect_send(link.on_signal(TCPSignal::ac()), 0, &TCPSignal::AddTcpStream);
}

#[test]
fn peer_request_arms_the_listener() {
    let mut link = ConnectLink::new(Role::Listener);
    expect_send(link.on_signal(TCPSignal::AddTcpStream), 0, &TCPSignal::ac());
    link.on_write(true);
    assert!(!link.takes_commands());
    expect_send(link.on_signal(TCPSignal::ac()), 0, &TCPSignal::AddTcpStream);
}

#[test]
fn peer_request_makes_the_connector_dial() {
    let mut link = ConnectLink::new(Role::Connector);
    expect_send(link.on_signal(TCPSignal::AddTcpStream), 1000, &TCPSignal::ac());
    expect_send(link.on_write(true), 0, &TCPSignal::ac());
    assert!(matches!(link.on_write(true), LinkStep::Read));
    expect_send(link.on_signal(TCPSignal::ac()), 0, &TCPSignal::ac());
    assert!(matches!(link.on_write(true), LinkStep::DialPeer));
    assert!(matches!(link.on_pairing(false), LinkStep::Read));
    assert_eq!(link.errors(), 1);
    expect_send(link.on_signal(TCPSignal::ac()), 0, &TCPSignal::ac());
    assert!(matches!(link.on_write(true), LinkStep::DialPeer));
    link.on_pairing(true);
    assert!(link.takes_commands());
}

#[test]
fn forwarded_signal_goes_out_on_the_next_accept() {
    let mut link = ConnectLink::new(Role::Connector);
    let s = TCPSignal::PostFile(
        FileState {
            is_folder: false,
            is_linked: None,
            is_local: false,
            is_synced: false,
            name: "n".to_string(),
        },
        FileBlocks::new(5),
    );
    let expected = framed(&s);
    link.on_command(MyConnectCommand::from(s));
    match link.on_signal(TCPSignal::ac()) {
        LinkStep::Send { pause_ms, bytes } => {
            assert_eq!(pause_ms, 0);
            assert_eq!(bytes, expected);
        }
        other => panic!("{:?}", other),
    }
    assert!(matches!(link.on_write(true), LinkStep::Read));
    assert!(link.takes_commands());
}

#[test]
fn stop_command_ends_the_loop() {
    let mut link = ConnectLink::new(Role::Listener);
    assert!(matches!(link.on_command(MyConnectCommand::ToStop), LinkStep::Stop));
    assert!(link.is_stopped());
}

#[test]
fn shut_only_notifies() {
    let mut link = ConnectLink::new(Role::Listener);
    assert!(matches!(link.on_signal(TCPSignal::Shut), LinkStep::PeerClosing));
    assert!(!link.is_stopped());
    assert!(link.takes_commands());
}

#[test]
fn parden_is_answered_with_accept() {
    let mut link = ConnectLink::new(Role::Listener);
    expect_send(link.on_signal(TCPSignal::Parden), 200, &TCPSignal::ac());
}

#[test]
fn post_file_is_handed_on() {
    let mut link = ConnectLink::new(Role::Connector);
    let mut fb = FileBlocks::new(6);
    fb.block_num = 2;
    let s = TCPSignal::PostFile(
        FileState {
            is_folder: false,
            is_linked: None,
            is_local: false,
            is_synced: false,
            name: "g".to_string(),
        },
        fb,
    );
    match link.on_signal(s) {
        LinkStep::Receive(f, d) => {
            assert_eq!(f.name, "g");
            assert_eq!((d.id, d.block_num), (6, 2));
        }
        other => panic!("{:?}", other),
    }
    assert!(matches!(link.on_signal(TCPSignal::ErrorInto), LinkStep::Read));
}
