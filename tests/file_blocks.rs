use file_net::file::{
    FileBlock, FileBlocks, FileManager, FileState, FileStateExtend, BLOCK_SIZE,
};

fn payload(len: usize) -> Vec<u8> {
    (0..len).map(|i| (i * 7 % 251) as u8).collect()
}

#[test]
fn test() {
    let mut fm = FileManager::new();
    let new_file = FileState {
        is_folder: false,
        is_linked: Some(
            "D:\\Program\\Rust\\Project\\file-net\\.github\\workflows\\create-git-release.js"
                .to_string(),
        ),
        is_local: true,
        is_synced: false,
        name: "git-release".to_owned(),
    };
    fm.add_file(FileStateExtend {
        f: new_file,
        is_selected: false,
    });
    let res = fm.list_files();
    println!("{:#?}", res);
    assert_eq!(res.len(), 1);
    assert_eq!(res[0].f.name, "git-release");
}

#[derive(Debug, Default)]
struct MyStruct {
    data: String,
}

#[test]
fn test2() {
    let len = 5;
    let mut vec: Vec<MyStruct> = Vec::new();
    vec.resize_with(len, MyStruct::default);
    let my_struct_to_insert = MyStruct {
        data: "Example Data".to_string(),
    };
    let pos = 2;
    vec[3] = MyStruct {
        data: "Example ssss".to_string(),
    };
    vec.insert(pos, my_struct_to_insert);
    println!("{:?}", vec);
    assert_eq!(vec.len(), 6);
    assert_eq!(vec[2].data, "Example Data");
    assert_eq!(vec[4].data, "Example ssss");
}

#[test]
fn block_size_is_sixty_kib() {
    assert_eq!(BLOCK_SIZE, 61440);
    let fb = FileBlocks::new(9);
    assert_eq!(fb.id, 9);
    assert_eq!(fb.block_size, 60 * 1024);
    assert_eq!(fb.block_num, 0);
    assert!(fb.is_finished());
}

#[test]
fn file_of_150_kib_splits_in_three_and_reassembles_out_of_order() {
    let data = payload(150 * 1024);
    let mut sender = FileBlocks::new(3);
    sender.load(data.clone());
    assert_eq!(sender.block_num, 3);
    assert_eq!(sender.blocks[0].data.len(), 60 * 1024);
    assert_eq!(sender.blocks[1].data.len(), 60 * 1024);
    assert_eq!(sender.blocks[2].data.len(), 30 * 1024);

    let mut receiver = sender.info();
    assert!(receiver.blocks.is_empty());
    receiver.init();
    assert!(!receiver.is_finished());
    for i in [2usize, 0, 1] {
        let wire = sender.get(i);
        let block = FileBlock::from_bytes(&wire);
        assert_eq!(block.index, i);
        receiver.set(block);
    }
    assert!(receiver.is_finished());
    assert_eq!(receiver.assemble(), data);
}

#[test]
fn block_count_is_the_ceiling() {
    for (len, count) in [(0usize, 0usize), (1, 1), (61440, 1), (61441, 2), (122880, 2), (122881, 3)] {
        let mut fb = FileBlocks::new(1);
        fb.load(payload(len));
        assert_eq!(fb.block_num, count, "length {}", len);
        assert_eq!(fb.remaining.len(), count);
        assert_eq!(fb.assemble(), payload(len));
    }
}

#[test]
fn empty_payload_has_no_block_and_is_finished() {
    let mut fb = FileBlocks::new(4);
    fb.load(Vec::new());
    assert_eq!(fb.block_num, 0);
    assert!(fb.blocks.is_empty());
    assert!(fb.is_finished());
}

#[test]
fn small_block_size_reassembles_in_reverse() {
    let data = payload(10);
    let mut sender = FileBlocks::new(5);
    sender.block_size = 3;
    sender.load(data.clone());
    assert_eq!(sender.block_num, 4);
    let mut receiver = sender.info();
    receiver.init();
    for i in (0..4).rev() {
        receiver.set(FileBlock::from_bytes(&sender.get(i)));
    }
    assert!(receiver.is_finished());
    assert_eq!(receiver.assemble(), data);
}

#[test]
fn finished_only_when_every_index_is_done() {
    let mut fb = FileBlocks::new(2);
    fb.block_num = 3;
    fb.init();
    assert!(fb.done(0));
    assert!(!fb.done(0));
    assert!(!fb.done(7));
    assert!(!fb.is_finished());
    assert!(fb.done(2));
    assert!(!fb.is_finished());
    assert!(fb.done(1));
    assert!(fb.is_finished());
    assert!(!fb.done(1));
    assert!(fb.is_finished());
}

#[test]
fn mismatched_or_out_of_range_blocks_change_nothing() {
    let mut fb = FileBlocks::new(2);
    fb.block_num = 2;
    fb.init();
    fb.set(FileBlock { file_id: 3, index: 0, data: vec![1] });
    fb.set(FileBlock { file_id: 2, index: 2, data: vec![1] });
    fb.set(FileBlock { file_id: 2, index: 99, data: vec![1] });
    assert_eq!(fb.remaining.len(), 2);
    assert!(fb.blocks.iter().all(|b| b.file_id == 0 && b.data.is_empty()));
    fb.set(FileBlock { file_id: 2, index: 1, data: vec![5, 6] });
    fb.set(FileBlock { file_id: 2, index: 1, data: vec![5, 6] });
    assert_eq!(fb.remaining.len(), 1);
    assert_eq!(fb.blocks[1].data, vec![5, 6]);
    assert!(!fb.is_finished());
}

#[test]
fn set_without_slots_is_a_no_op() {
    let mut fb = FileBlocks::new(2);
    fb.block_num = 2;
    fb.set(FileBlock { file_id: 2, index: 0, data: vec![1] });
    assert!(fb.blocks.is_empty());
}

#[test]
fn init_keeps_existing_slots_and_fills_the_rest() {
    let mut fb = FileBlocks::new(6);
    fb.block_size = 2;
    fb.load(vec![1, 2, 3]);
    fb.block_num = 4;
    fb.init();
    assert_eq!(fb.blocks.len(), 4);
    assert_eq!(fb.blocks[0].data, vec![1, 2]);
    assert_eq!(fb.blocks[1].data, vec![3]);
    assert_eq!(fb.blocks[2].file_id, 0);
    assert_eq!(fb.remaining.len(), 4);
    fb.block_num = 1;
    fb.init();
    assert_eq!(fb.blocks.len(), 1);
    assert_eq!(fb.remaining.len(), 1);
}

#[test]
fn info_keeps_the_descriptor_and_outstanding_indices() {
    let mut fb = FileBlocks::new(8);
    fb.block_size = 1;
    fb.load(vec![1, 2, 3]);
    fb.done(1);
    let info = fb.info();
    assert_eq!(info.id, 8);
    assert_eq!(info.block_size, 1);
    assert_eq!(info.block_num, 3);
    assert!(info.blocks.is_empty());
    assert!(info.remaining.contains(&0) && info.remaining.contains(&2));
    assert!(!info.remaining.contains(&1));
}

#[test]
fn validity_follows_the_id() {
    assert!(!FileBlocks::new(0).is_valid());
    assert!(FileBlocks::new(1).is_valid());
    assert!(!FileBlocks::default().is_valid());
    assert!(!FileBlock::default().is_valid());
    assert!(FileBlock { file_id: 4, index: 0, data: vec![] }.is_valid());
}

#[test]
fn block_wire_form() {
    let b = FileBlock { file_id: 1, index: 2, data: vec![9, 8] };
    let wire = b.to_bytes();
    assert_eq!(
        wire,
        vec![1, 0, 0, 0, 0, 0, 0, 0, 2, 0, 0, 0, 0, 0, 0, 0, 2, 0, 0, 0, 0, 0, 0, 0, 9, 8]
    );
    let back = FileBlock::from_bytes(&wire);
    assert_eq!((back.file_id, back.index, back.data), (1, 2, vec![9, 8]));
}

#[test]
fn garbled_block_is_invalid() {
    let mut wire = FileBlock { file_id: 1, index: 2, data: vec![9, 8] }.to_bytes();
    wire.pop();
    assert!(!FileBlock::from_bytes(&wire).is_valid());
    wire.push(8);
    wire.push(0);
    assert!(!FileBlock::from_bytes(&wire).is_valid());
    assert!(!FileBlock::from_bytes(&[1, 2, 3]).is_valid());
}

#[test]
fn get_out_of_range_gives_the_empty_block() {
    let fb = FileBlocks::new(1);
    assert_eq!(fb.get(0), FileBlock::default().to_bytes());
}

#[test]
fn paths_of_entries() {
    let mut f = FileState {
        is_folder: false,
        is_linked: None,
        is_local: false,
        is_synced: false,
        name: "a.txt".to_string(),
    };
    assert_eq!(f.get_path(), "./downloads/a.txt");
    f.is_local = true;
    assert_eq!(f.get_path(), "./.file-net/a.txt");
    f.is_linked = Some("/tmp/x".to_string());
    assert_eq!(f.get_path(), "/tmp/x");
    let g = f.duplicate();
    assert_eq!(g.name, "a.txt");
    assert_eq!(g.is_linked.as_deref(), Some("/tmp/x"));
}

#[test]
fn new_catalog_is_empty() {
    let fm = FileManager::new();
    assert!(fm.list_files().is_empty());
    assert!(fm.files.is_empty());
    assert_eq!(fm.storage, "./.file-net/");
    assert_eq!(fm.structure, "./.file-net-struct/");
    assert_eq!(fm.current, "");
}
