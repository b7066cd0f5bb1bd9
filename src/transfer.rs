//! The decisions of the sender and receiver engines: which block goes out
//! next and what a reply does to it, which inbound block lands where, and the
//! outcomes reported for each transfer.
//!
//! Sockets, pools and threads stay with the caller, which hands each outcome
//! of its I/O to these types.

use crate::file::{
    block_bytes, BlockSetView, FileBlock, FileBlocks, FileState, FileStateView, BLOCK_SIZE,
};
use crate::link::ac_view;
use crate::signal::{SignalView, TCPSignal};
use std::collections::HashMap;
use vstd::prelude::*;

verus! {

broadcast use vstd::std_specs::hash::group_hash_axioms;

/// Why sending a file failed.
#[derive(Clone, Copy, Debug, PartialEq, Eq, Structural)]
pub enum SendFileErrorType {
    /// The file could not be read; the transfer never started.
    CannotReadFile,
    /// A block could not be delivered this time; it will be tried again.
    SendError,
}

/// How sending a file went well.
#[derive(Clone, Copy, Debug, PartialEq, Eq, Structural)]
pub enum SendFileOkType {
    /// Every block was acknowledged.
    SendDone,
    /// Blocks acknowledged so far, out of all blocks.
    SendProgress(usize, usize),
}

impl SendFileOkType {
    /// True for the final outcome.
    pub fn is_ok(&self) -> (r: bool)
        ensures
            r == (*self is SendDone),
    {
        match self {
            SendFileOkType::SendDone => true,
            _ => false,
        }
    }
}

/// Why receiving a file failed.
#[derive(Clone, Copy, Debug, PartialEq, Eq, Structural)]
pub enum ReceiveFileErrorType {
    /// The transfer could not be registered.
    ReceiveError,
    /// The reassembled file could not be written.
    CannotWriteFile,
}

/// How receiving a file went well.
#[derive(Clone, Copy, Debug, PartialEq, Eq, Structural)]
pub enum ReceiveFileOkType {
    /// Every block arrived.
    ReceiveDone,
    /// Blocks received so far, out of all blocks.
    ReceiveProgress(usize, usize),
}

impl ReceiveFileOkType {
    /// True for the final outcome.
    pub fn is_ok(&self) -> (r: bool)
        ensures
            r == (*self is ReceiveDone),
    {
        match self {
            ReceiveFileOkType::ReceiveDone => true,
            _ => false,
        }
    }
}

/// Bookkeeping of one outbound run.
#[derive(Debug)]
pub struct MySenderState {}

impl MySenderState {
    pub fn new() -> (r: MySenderState) {
        MySenderState {  }
    }
}

/// Bookkeeping of one inbound run.
#[derive(Debug)]
pub struct MyReceiverState {}

impl MyReceiverState {
    pub fn new() -> (r: MyReceiverState) {
        MyReceiverState {  }
    }
}

/// Hands out transfer ids: increasing, never reused, never 0.
#[derive(Debug)]
pub struct TransferIds {
    next: usize,
}

impl TransferIds {
    pub closed spec fn next_spec(&self) -> usize {
        self.next
    }

    /// The first id handed out is 1; 0 means "no transfer".
    pub fn new() -> (r: TransferIds)
        ensures
            r.next_spec() == 1,
    {
        TransferIds { next: 1 }
    }

    /// The next id, or `None` once the ids are used up.
    pub fn next_id(&mut self) -> (r: Option<usize>)
        ensures
            old(self).next_spec() < usize::MAX ==> r == Some(old(self).next_spec())
                && final(self).next_spec() == old(self).next_spec() + 1,
            old(self).next_spec() == usize::MAX ==> r is None && final(self).next_spec()
                == old(self).next_spec(),
    {
        if self.next < usize::MAX {
            let id = self.next;
            self.next = self.next + 1;
            Some(id)
        } else {
            None
        }
    }
}

/// What an outbound run is: the block set, the next block to send, and
/// whether the final outcome was reported.
pub struct SendRunView {
    pub blocks: BlockSetView,
    pub pos: usize,
    pub reported: bool,
}

impl SendRunView {
    /// The blocks before `pos` are acknowledged, the others outstanding.
    pub open spec fn wf(self) -> bool {
        &&& self.blocks.wf()
        &&& self.pos <= self.blocks.block_num
        &&& forall|i: usize|
            #[trigger] self.blocks.remaining.contains(i) <==> self.pos <= i
                < self.blocks.block_num
    }
}

/// One outbound transfer: blocks go out in index order, each until the peer
/// acknowledges it.
#[derive(Debug)]
pub struct SendRun {
    blocks: FileBlocks,
    pos: usize,
    reported: bool,
}

impl View for SendRun {
    type V = SendRunView;

    closed spec fn view(&self) -> SendRunView {
        SendRunView { blocks: self.blocks@, pos: self.pos, reported: self.reported }
    }
}

impl SendRun {
    /// A run for transfer `id` over the bytes `data`, cut into standard
    /// blocks, all outstanding.
    pub fn new(id: usize, data: Vec<u8>) -> (r: SendRun)
        ensures
            r@.wf(),
            r@.pos == 0,
            !r@.reported,
            r@.blocks.id == id,
            r@.blocks.block_size == BLOCK_SIZE,
            r@.blocks.slots == crate::file::split_slots(id, data@, BLOCK_SIZE as nat),
    {
        let mut blocks = FileBlocks::new(id);
        blocks.load(data);
        SendRun { blocks, pos: 0, reported: false }
    }

    pub fn id(&self) -> (r: usize)
        ensures
            r == self@.blocks.id,
    {
        self.blocks.id
    }

    /// The index of the next block to send.
    pub fn position(&self) -> (r: usize)
        ensures
            r == self@.pos,
    {
        self.pos
    }

    /// True when every block is acknowledged.
    pub fn is_finished(&self) -> (r: bool)
        requires
            self@.wf(),
        ensures
            r == self@.blocks.finished(),
            r == (self@.pos == self@.blocks.block_num),
    {
        proof {
            if self.pos < self.blocks.block_num {
                assert(self@.blocks.remaining.contains(self.pos));
            }
        }
        self.blocks.is_finished()
    }

    /// The descriptor announced to the peer before any block.
    pub fn descriptor(&self) -> (r: FileBlocks)
        ensures
            r@.id == self@.blocks.id,
            r@.block_size == self@.blocks.block_size,
            r@.block_num == self@.blocks.block_num,
            r@.slots.len() == 0,
    {
        self.blocks.info()
    }

    /// The announcement of this run for file `f`: to the peer the file is
    /// remote.
    pub fn announcement(&self, f: &FileState) -> (r: TCPSignal)
        ensures
            r@ == SignalView::PostFile(
                FileStateView { is_local: false, ..f@ },
                crate::signal::Descriptor {
                    id: self@.blocks.id,
                    block_size: self@.blocks.block_size,
                    block_num: self@.blocks.block_num,
                },
            ),
    {
        let mut remote = f.duplicate();
        remote.is_local = false;
        TCPSignal::PostFile(remote, self.descriptor())
    }

    /// The wire form of the block to send next, or `None` when every block
    /// is acknowledged.
    pub fn next_block(&self) -> (r: Option<Vec<u8>>)
        requires
            self@.wf(),
        ensures
            self@.pos < self@.blocks.block_num ==> r is Some && r->0@ == block_bytes(
                self@.blocks.slots[self@.pos as int],
            ),
            self@.pos == self@.blocks.block_num ==> r is None,
    {
        if self.pos < self.blocks.block_num {
            Some(self.blocks.get(self.pos))
        } else {
            None
        }
    }

    /// No connection was available, or the one taken failed: the block is
    /// not delivered, nothing advances, and a transient failure is reported.
    pub fn on_unavailable(&mut self) -> (r: SendFileErrorType)
        ensures
            final(self)@ == old(self)@,
            r == SendFileErrorType::SendError,
    {
        SendFileErrorType::SendError
    }

    /// The peer's reply to the block just sent. An `Accept` acknowledges it:
    /// it is marked done and the run moves to the next block. Anything else
    /// leaves the run as it is, and the same block goes out again.
    pub fn on_reply(&mut self, reply: &TCPSignal) -> (r: Result<SendFileOkType, SendFileErrorType>)
        requires
            old(self)@.wf(),
            old(self)@.pos < old(self)@.blocks.block_num,
        ensures
            final(self)@.wf(),
            reply@ is Accept ==> {
                &&& final(self)@ == (SendRunView {
                    blocks: old(self)@.blocks.marked(old(self)@.pos),
                    pos: (old(self)@.pos + 1) as usize,
                    ..old(self)@
                })
                &&& r == Ok::<SendFileOkType, SendFileErrorType>(
                    SendFileOkType::SendProgress(
                        (old(self)@.pos + 1) as usize,
                        old(self)@.blocks.block_num,
                    ),
                )
            },
            !(reply@ is Accept) ==> final(self)@ == old(self)@ && r == Err::<
                SendFileOkType,
                SendFileErrorType,
            >(SendFileErrorType::SendError),
    {
        if reply.is_ok() {
            self.blocks.done(self.pos);
            self.pos = self.pos + 1;
            Ok(SendFileOkType::SendProgress(self.pos, self.blocks.block_num))
        } else {
            Err(SendFileErrorType::SendError)
        }
    }

    /// The final outcome, once every block is acknowledged; it is given
    /// exactly once.
    pub fn finish(&mut self) -> (r: Option<SendFileOkType>)
        requires
            old(self)@.wf(),
        ensures
            final(self)@.wf(),
            final(self)@.blocks == old(self)@.blocks,
            final(self)@.pos == old(self)@.pos,
            old(self)@.blocks.finished() && !old(self)@.reported ==> r == Some(
                SendFileOkType::SendDone,
            ) && final(self)@.reported,
            !(old(self)@.blocks.finished() && !old(self)@.reported) ==> r is None && final(self)@.reported == old(self)@.reported,
    {
        if !self.reported && self.is_finished() {
            self.reported = true;
            Some(SendFileOkType::SendDone)
        } else {
            None
        }
    }
}

/// The transfers being received, by transfer id: where inbound blocks are
/// put together.
#[derive(Debug)]
pub struct BlockRegistry {
    transfers: HashMap<usize, FileBlocks>,
}

impl View for BlockRegistry {
    type V = Map<usize, BlockSetView>;

    closed spec fn view(&self) -> Map<usize, BlockSetView> {
        self.transfers@.map_values(|b: FileBlocks| b@)
    }
}

impl BlockRegistry {
    /// No transfer registered.
    pub fn new() -> (r: BlockRegistry)
        ensures
            r@ == Map::<usize, BlockSetView>::empty(),
    {
        let r = BlockRegistry { transfers: HashMap::new() };
        assert(r@ =~= Map::<usize, BlockSetView>::empty());
        r
    }

    /// True when transfer `id` is registered.
    pub fn contains(&self, id: usize) -> (r: bool)
        ensures
            r == self@.contains_key(id),
    {
        self.transfers.contains_key(&id)
    }

    /// Registers an announced transfer, its slots prepared and every index
    /// outstanding. Id 0 and an id already registered are refused, and then
    /// nothing changes.
    pub fn register(&mut self, fb: FileBlocks) -> (r: Result<usize, ReceiveFileErrorType>)
        ensures
            (fb.id == 0 || old(self)@.contains_key(fb.id)) ==> r == Err::<
                usize,
                ReceiveFileErrorType,
            >(ReceiveFileErrorType::ReceiveError) && final(self)@ == old(self)@,
            !(fb.id == 0 || old(self)@.contains_key(fb.id)) ==> {
                &&& r == Ok::<usize, ReceiveFileErrorType>(fb.id)
                &&& final(self)@ == old(self)@.insert(fb.id, fb@.initialized())
            },
    {
        let id = fb.id;
        if id == 0 || self.transfers.contains_key(&id) {
            return Err(ReceiveFileErrorType::ReceiveError);
        }
        let mut fb = fb;
        let ghost announced = fb@;
        fb.init();
        assert(fb@ == announced.initialized());
        self.transfers.insert(id, fb);
        proof {
            assert(self@ =~= old(self)@.insert(id, fb@));
        }
        Ok(id)
    }

    /// Routes an inbound block. A valid block of a registered transfer goes
    /// into its slot and is acknowledged with an `Accept`. Any other block is
    /// answered with `Parden` and changes nothing: no transfer is created for
    /// it.
    pub fn deliver(&mut self, block: FileBlock) -> (r: TCPSignal)
        ensures
            (block.file_id != 0 && old(self)@.contains_key(block.file_id)) ==> {
                &&& final(self)@ == old(self)@.insert(
                    block.file_id,
                    old(self)@[block.file_id].with_block(block@),
                )
                &&& r@ == ac_view()
            },
            !(block.file_id != 0 && old(self)@.contains_key(block.file_id)) ==> {
                &&& final(self)@ == old(self)@
                &&& r@ == SignalView::Parden
            },
    {
        let id = block.file_id;
        if id == 0 {
            return TCPSignal::Parden;
        }
        match self.transfers.remove(&id) {
            Some(mut fb) => {
                let ghost b = block@;
                fb.set(block);
                self.transfers.insert(id, fb);
                proof {
                    assert(self@ =~= old(self)@.insert(id, old(self)@[id].with_block(b)));
                }
                TCPSignal::ac()
            },
            None => TCPSignal::Parden,
        }
    }

    /// Removes and returns transfer `id` once every block has arrived.
    pub fn take_finished(&mut self, id: usize) -> (r: Option<FileBlocks>)
        ensures
            (old(self)@.contains_key(id) && old(self)@[id].finished()) ==> {
                &&& r is Some
                &&& r->0@ == old(self)@[id]
                &&& final(self)@ == old(self)@.remove(id)
            },
            !(old(self)@.contains_key(id) && old(self)@[id].finished()) ==> r is None && final(self)@ == old(self)@,
    {
        match self.transfers.remove(&id) {
            Some(fb) => {
                if fb.is_finished() {
                    proof {
                        assert(self@ =~= old(self)@.remove(id));
                    }
                    Some(fb)
                } else {
                    self.transfers.insert(id, fb);
                    proof {
                        assert(self@ =~= old(self)@);
                    }
                    None
                }
            },
            None => None,
        }
    }
}

} // verus!
