use file_net::file::{FileBlock, FileBlocks, FileState};
use file_net::signal::TCPSignal;
use file_net::transfer::{
    BlockRegistry, MyReceiverState, MySenderState, ReceiveFileErrorType, ReceiveFileOkType,
    SendFileErrorType, SendFileOkType, SendRun, TransferIds,
};

#[test]
fn no_connection_is_transient_and_the_same_block_is_retried() {
    let mut run = SendRun::new(1, vec![1, 2, 3]);
    let first = run.next_block().unwrap();
    assert_eq!(run.on_unavailable(), SendFileErrorType::SendError);
    assert_eq!(run.position(), 0);
    assert_eq!(run.next_block().unwrap(), first);
    assert_eq!(
        run.on_reply(&TCPSignal::ac()),
        Ok(SendFileOkType::SendProgress(1, 1))
    );
    assert!(run.is_finished());
    assert_eq!(run.finish(), Some(SendFileOkType::SendDone));
    assert_eq!(run.finish(), None);
}

#[test]
fn negative_reply_does_not_advance() {
    let mut run = SendRun::new(2, vec![0; 61441]);
    assert_eq!(run.on_reply(&TCPSignal::Parden), Err(SendFileErrorType::SendError));
    assert_eq!(run.position(), 0);
    assert_eq!(run.on_reply(&TCPSignal::ac()), Ok(SendFileOkType::SendProgress(1, 2)));
    assert_eq!(run.finish(), None);
    assert_eq!(run.on_reply(&TCPSignal::ac()), Ok(SendFileOkType::SendProgress(2, 2)));
    assert!(run.next_block().is_none());
    assert_eq!(run.finish(), Some(SendFileOkType::SendDone));
}

#[test]
fn empty_file_is_done_at_once() {
    let mut run = SendRun::new(3, vec![]);
    assert!(run.next_block().is_none());
    assert_eq!(run.finish(), Some(SendFileOkType::SendDone));
}

#[test]
fn blocks_go_out_in_order() {
    let data: Vec<u8> = (0..200u32).map(|i| i as u8).collect();
    let mut run = SendRun::new(7, data.clone());
    let d = run.descriptor();
    assert_eq!((d.id, d.block_num), (7, 1));
    let b = FileBlock::from_bytes(&run.next_block().unwrap());
    assert_eq!((b.file_id, b.index), (7, 0));
    assert_eq!(b.data, data);
    run.on_reply(&TCPSignal::ac());
    assert_eq!(run.id(), 7);
}

#[test]
fn announcement_marks_the_file_remote() {
    let run = SendRun::new(4, vec![1; 10]);
    let f = FileState {
        is_folder: false,
        is_linked: Some("/x".to_string()),
        is_local: true,
        is_synced: true,
        name: "x".to_string(),
    };
    match run.announcement(&f) {
        TCPSignal::PostFile(g, d) => {
            assert!(!g.is_local);
            assert_eq!(g.name, "x");
            assert_eq!((d.id, d.block_num, d.block_size), (4, 1, 61440));
        }
        other => panic!("{:?}", other),
    }
}

#[test]
fn unregistered_transfer_gets_parden_and_no_buffer() {
    let mut reg = BlockRegistry::new();
    let reply = reg.deliver(FileBlock { file_id: 42, index: 0, data: vec![1] });
    assert!(matches!(reply, TCPSignal::Parden));
    assert!(!reg.contains(42));
    assert!(reg.take_finished(42).is_none());
}

#[test]
fn invalid_block_gets_parden() {
    let mut reg = BlockRegistry::new();
    let reply = reg.deliver(FileBlock::default());
    assert!(matches!(reply, TCPSignal::Parden));
    assert!(!reg.contains(0));
}

#[test]
fn registered_transfer_assembles_out_of_order() {
    let data: Vec<u8> = (0..150 * 1024).map(|i| (i % 13) as u8).collect();
    let mut sender = FileBlocks::new(9);
    sender.load(data.clone());
    let mut reg = BlockRegistry::new();
    assert_eq!(reg.register(sender.info()), Ok(9));
    assert_eq!(reg.register(sender.info()), Err(ReceiveFileErrorType::ReceiveError));
    assert_eq!(reg.register(FileBlocks::new(0)), Err(ReceiveFileErrorType::ReceiveError));
    for i in [2usize, 0] {
        let reply = reg.deliver(FileBlock::from_bytes(&sender.get(i)));
        assert!(reply.is_ok());
        assert!(reg.take_finished(9).is_none());
    }
    assert!(reg.deliver(FileBlock::from_bytes(&sender.get(1))).is_ok());
    let done = reg.take_finished(9).unwrap();
    assert!(!reg.contains(9));
    assert_eq!(done.assemble(), data);
}

#[test]
fn ids_start_at_one_and_increase() {
    let mut ids = TransferIds::new();
    assert_eq!(ids.next_id(), Some(1));
    assert_eq!(ids.next_id(), Some(2));
    assert_eq!(ids.next_id(), Some(3));
}

#[test]
fn outcome_kinds() {
    assert!(SendFileOkType::SendDone.is_ok());
    assert!(!SendFileOkType::SendProgress(1, 2).is_ok());
    assert!(ReceiveFileOkType::ReceiveDone.is_ok());
    assert!(!ReceiveFileOkType::ReceiveProgress(1, 2).is_ok());
    assert_ne!(ReceiveFileErrorType::ReceiveError, ReceiveFileErrorType::CannotWriteFile);
    assert_ne!(SendFileErrorType::SendError, SendFileErrorType::CannotReadFile);
    let _ = MySenderState::new();
    let _ = MyReceiverState::new();
}
