use file_net::codec::{frame, frame_len, FRAME_HEADER_LEN};
use file_net::file::{FileBlocks, FileState};
use file_net::signal::TCPSignal;

fn state(linked: Option<&str>, name: &str) -> FileState {
    FileState {
        is_folder: false,
        is_linked: linked.map(|s| s.to_string()),
        is_local: true,
        is_synced: true,
        name: name.to_string(),
    }
}

#[test]
fn accept_round_trips() {
    let s = TCPSignal::Accept { ip_addr: "10.0.0.2:80".to_string(), name: "主机".to_string() };
    match TCPSignal::from_bytes(&s.to_bytes()) {
        TCPSignal::Accept { ip_addr, name } => {
            assert_eq!(ip_addr, "10.0.0.2:80");
            assert_eq!(name, "主机");
        }
        other => panic!("{:?}", other),
    }
}

#[test]
fn accept_with_empty_texts_round_trips() {
    let bytes = TCPSignal::ac().to_bytes();
    assert_eq!(bytes.len(), 4 + 8 + 8);
    match TCPSignal::from_bytes(&bytes) {
        TCPSignal::Accept { ip_addr, name } => assert!(ip_addr.is_empty() && name.is_empty()),
        other => panic!("{:?}", other),
    }
}

#[test]
fn payloadless_signals_round_trip() {
    assert!(matches!(TCPSignal::from_bytes(&TCPSignal::AddTcpStream.to_bytes()), TCPSignal::AddTcpStream));
    assert!(matches!(TCPSignal::from_bytes(&TCPSignal::Parden.to_bytes()), TCPSignal::Parden));
    assert!(matches!(TCPSignal::from_bytes(&TCPSignal::Shut.to_bytes()), TCPSignal::Shut));
    assert!(matches!(TCPSignal::from_bytes(&TCPSignal::ErrorInto.to_bytes()), TCPSignal::ErrorInto));
    assert_eq!(TCPSignal::Parden.to_bytes(), vec![3, 0, 0, 0]);
}

#[test]
fn post_file_round_trips() {
    let mut fb = FileBlocks::new(12);
    fb.block_num = 3;
    for linked in [None, Some("/srv/f"), Some("")] {
        let s = TCPSignal::PostFile(state(linked, "f.bin"), fb.info());
        match TCPSignal::from_bytes(&s.to_bytes()) {
            TCPSignal::PostFile(f, d) => {
                assert_eq!(f.name, "f.bin");
                assert_eq!(f.is_linked.as_deref(), linked);
                assert!(!f.is_folder && f.is_local && f.is_synced);
                assert_eq!((d.id, d.block_size, d.block_num), (12, 61440, 3));
            }
            other => panic!("{:?}", other),
        }
    }
}

#[test]
fn post_file_with_empty_name_round_trips() {
    let s = TCPSignal::PostFile(state(None, ""), FileBlocks::new(1));
    match TCPSignal::from_bytes(&s.to_bytes()) {
        TCPSignal::PostFile(f, d) => {
            assert!(f.name.is_empty());
            assert_eq!(d.id, 1);
        }
        other => panic!("{:?}", other),
    }
}

#[test]
fn garbage_decodes_to_error_into() {
    let cases: Vec<Vec<u8>> = vec![
        vec![],
        vec![1, 2],
        vec![9, 0, 0, 0],
        vec![255, 255, 255, 255, 1, 2, 3],
        vec![0, 0, 0, 0, 100, 0, 0, 0, 0, 0, 0, 0, 65],
    ];
    for c in cases {
        assert!(matches!(TCPSignal::from_bytes(&c), TCPSignal::ErrorInto), "{:?}", c);
    }
}

#[test]
fn trailing_bytes_are_refused() {
    let mut b = TCPSignal::Shut.to_bytes();
    b.push(0);
    assert!(matches!(TCPSignal::from_bytes(&b), TCPSignal::ErrorInto));
}

#[test]
fn invalid_utf8_text_is_refused() {
    let mut b = vec![0u8, 0, 0, 0];
    b.extend_from_slice(&2u64.to_le_bytes());
    b.extend_from_slice(&[0xff, 0xfe]);
    b.extend_from_slice(&0u64.to_le_bytes());
    assert!(matches!(TCPSignal::from_bytes(&b), TCPSignal::ErrorInto));
}

#[test]
fn text_bytes_are_utf8() {
    let s = TCPSignal::Accept { ip_addr: "é".to_string(), name: "x".to_string() };
    let b = s.to_bytes();
    assert_eq!(&b[4..12], &2u64.to_le_bytes());
    assert_eq!(&b[12..14], "é".as_bytes());
}

#[test]
fn only_accept_is_ok() {
    assert!(TCPSignal::ac().is_ok());
    assert!(!TCPSignal::Parden.is_ok());
    assert!(!TCPSignal::ErrorInto.is_ok());
    assert!(!TCPSignal::Shut.is_ok());
}

#[test]
fn frames_carry_an_eight_byte_length() {
    let f = frame(&[7, 8, 9]);
    assert_eq!(f, vec![3, 0, 0, 0, 0, 0, 0, 0, 7, 8, 9]);
    assert_eq!(FRAME_HEADER_LEN, 8);
    assert_eq!(frame_len(&f[..8]), 3);
    assert_eq!(frame(&[]), vec![0; 8]);
    assert_eq!(frame_len(&[0, 1, 0, 0, 0, 0, 0, 0]), 256);
}
