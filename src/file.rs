//! Files cut into numbered blocks, the set of blocks of one transfer, and
//! the catalog entries that name files.

use crate::codec::{
    bytes_field, holds_at, lemma_holds_split, lemma_read_bytes, lemma_read_usize, lemma_u64_bytes,
    put_bytes, put_slice, put_usize, read_bytes_at, read_usize_at, take_bytes, take_usize, usize_field,
};
use std::collections::HashSet;
use vstd::prelude::*;
use vstd::slice::*;
use vstd::string::*;

verus! {

broadcast use vstd::std_specs::hash::group_hash_axioms;

/// Size of every block but possibly the last one.
pub const BLOCK_SIZE: usize = 60 * 1024;

/// What a block is: the transfer it belongs to, its place, its bytes.
pub struct BlockView {
    pub file_id: usize,
    pub index: usize,
    pub data: Seq<u8>,
}

/// The block that stands in an empty slot; its transfer id 0 makes it invalid.
pub open spec fn empty_block() -> BlockView {
    BlockView { file_id: 0, index: 0, data: Seq::empty() }
}

/// One numbered slice of a file's bytes.
#[derive(Debug)]
pub struct FileBlock {
    pub file_id: usize,
    pub index: usize,
    pub data: Vec<u8>,
}

impl View for FileBlock {
    type V = BlockView;

    open spec fn view(&self) -> BlockView {
        BlockView { file_id: self.file_id, index: self.index, data: self.data@ }
    }
}

impl Default for FileBlock {
    fn default() -> (r: FileBlock)
        ensures
            r@ == empty_block(),
    {
        FileBlock { file_id: 0, index: 0, data: Vec::new() }
    }
}

/// A block on the wire: transfer id, index, then the length-prefixed bytes.
pub open spec fn block_bytes(b: BlockView) -> Seq<u8> {
    usize_field(b.file_id) + usize_field(b.index) + bytes_field(b.data)
}

/// Reads a block at `pos`.
pub open spec fn read_block_at(b: Seq<u8>, pos: int) -> Option<(BlockView, int)> {
    match read_usize_at(b, pos) {
        Some((f, p1)) => match read_usize_at(b, p1) {
            Some((i, p2)) => match read_bytes_at(b, p2) {
                Some((d, p3)) => Some((BlockView { file_id: f, index: i, data: d }, p3)),
                None => None,
            },
            None => None,
        },
        None => None,
    }
}

/// The block that a message holds; anything but exactly one block gives the
/// empty, invalid block.
pub open spec fn parse_block(b: Seq<u8>) -> BlockView {
    match read_block_at(b, 0) {
        Some((v, p)) => if p == b.len() {
            v
        } else {
            empty_block()
        },
        None => empty_block(),
    }
}

impl FileBlock {
    /// A block is valid when it names a transfer: id 0 names none.
    pub fn is_valid(&self) -> (r: bool)
        ensures
            r == (self.file_id != 0),
    {
        self.file_id != 0
    }

    /// The wire form of the block.
    pub fn to_bytes(&self) -> (r: Vec<u8>)
        ensures
            r@ == block_bytes(self@),
    {
        let mut out: Vec<u8> = Vec::new();
        put_usize(&mut out, self.file_id);
        put_usize(&mut out, self.index);
        put_bytes(&mut out, self.data.as_slice());
        assert(out@ =~= block_bytes(self@));
        out
    }

    /// Reads a block from a message; a message that is not exactly one
    /// block gives the empty block, which is invalid.
    pub fn from_bytes(b: &[u8]) -> (r: FileBlock)
        ensures
            r@ == parse_block(b@),
    {
        if let Some((file_id, p1)) = take_usize(b, 0) {
            if let Some((index, p2)) = take_usize(b, p1) {
                if let Some((data, p3)) = take_bytes(b, p2) {
                    if p3 == b.len() {
                        return FileBlock { file_id, index, data };
                    }
                }
            }
        }
        FileBlock::default()
    }
}

/// A block written at `pos` is read back from there.
pub proof fn lemma_read_block(b: Seq<u8>, pos: int, v: BlockView)
    requires
        holds_at(b, pos, block_bytes(v)),
        v.data.len() <= u64::MAX,
    ensures
        read_block_at(b, pos) == Some((v, pos + block_bytes(v).len())),
{
    let f = usize_field(v.file_id);
    let i = usize_field(v.index);
    let d = bytes_field(v.data);
    lemma_u64_bytes(v.file_id as u64);
    lemma_u64_bytes(v.index as u64);
    assert(block_bytes(v) == f + (i + d));
    lemma_holds_split(b, pos, f, i + d);
    lemma_holds_split(b, pos + 8, i, d);
    lemma_read_usize(b, pos, v.file_id);
    lemma_read_usize(b, pos + 8, v.index);
    lemma_read_bytes(b, pos + 16, v.data);
}

/// Decoding undoes encoding for every block.
pub proof fn lemma_block_round_trip(v: BlockView)
    requires
        v.data.len() <= u64::MAX,
    ensures
        parse_block(block_bytes(v)) == v,
{
    let b = block_bytes(v);
    assert(b.subrange(0, b.len() as int) =~= b);
    lemma_read_block(b, 0, v);
}

/// What a block set is: its transfer id, block size and count, the slots
/// that hold the blocks, and the indices still outstanding.
pub struct BlockSetView {
    pub id: usize,
    pub block_size: usize,
    pub block_num: usize,
    pub slots: Seq<BlockView>,
    pub remaining: Set<usize>,
}

/// The indices `0 .. n`.
pub open spec fn index_set(n: usize) -> Set<usize> {
    Set::new(|i: usize| i < n)
}

/// The number of blocks of size `size` that `len` bytes take: the ceiling of
/// `len / size`.
pub open spec fn block_count(len: nat, size: nat) -> nat {
    if size == 0 {
        0
    } else if len % size == 0 {
        len / size
    } else {
        len / size + 1
    }
}

/// The bytes of block `i` when `data` is cut into blocks of `size` bytes.
pub open spec fn chunk(data: Seq<u8>, size: nat, i: nat) -> Seq<u8> {
    let start = i * size;
    let end: int = if (i + 1) * size <= data.len() {
        ((i + 1) * size) as int
    } else {
        data.len() as int
    };
    data.subrange(start as int, end)
}

/// The blocks of transfer `id` that `data` is cut into.
pub open spec fn split_slots(id: usize, data: Seq<u8>, size: nat) -> Seq<BlockView> {
    Seq::new(
        block_count(data.len(), size),
        |i: int| BlockView { file_id: id, index: i as usize, data: chunk(data, size, i as nat) },
    )
}

/// The bytes of all slots, one after the other.
pub open spec fn concat_data(slots: Seq<BlockView>) -> Seq<u8>
    decreases slots.len(),
{
    if slots.len() == 0 {
        Seq::empty()
    } else {
        concat_data(slots.drop_last()) + slots.last().data
    }
}

impl BlockSetView {
    /// One slot per block, and only existing indices outstanding.
    pub open spec fn wf(self) -> bool {
        &&& self.slots.len() == self.block_num
        &&& self.remaining.subset_of(index_set(self.block_num))
    }

    /// No block is outstanding.
    pub open spec fn finished(self) -> bool {
        self.remaining.is_empty()
    }

    /// Whether `b` may take its slot: it names this transfer and an index
    /// that exists.
    pub open spec fn accepts(self, b: BlockView) -> bool {
        b.file_id == self.id && b.index < self.block_num && b.index < self.slots.len()
    }

    /// The set after `b` arrives: it takes its slot and its index is no
    /// longer outstanding; a block that is not accepted changes nothing.
    pub open spec fn with_block(self, b: BlockView) -> BlockSetView {
        if self.accepts(b) {
            BlockSetView {
                slots: self.slots.update(b.index as int, b),
                remaining: self.remaining.remove(b.index),
                ..self
            }
        } else {
            self
        }
    }

    /// The set prepared to receive: one slot per block (slots already there
    /// are kept, new ones are empty) and every index outstanding.
    pub open spec fn initialized(self) -> BlockSetView {
        BlockSetView {
            slots: Seq::new(
                self.block_num as nat,
                |i: int|
                    if i < self.slots.len() {
                        self.slots[i]
                    } else {
                        empty_block()
                    },
            ),
            remaining: index_set(self.block_num),
            ..self
        }
    }

    /// The set after index `i` is marked done.
    pub open spec fn marked(self, i: usize) -> BlockSetView {
        BlockSetView { remaining: self.remaining.remove(i), ..self }
    }

    /// The set as it stands before any block has arrived: empty slots and
    /// every index outstanding.
    pub open spec fn fresh(id: usize, block_size: usize, block_num: usize) -> BlockSetView {
        BlockSetView {
            id,
            block_size,
            block_num,
            slots: Seq::new(block_num as nat, |i: int| empty_block()),
            remaining: index_set(block_num),
        }
    }
}

/// The blocks of one transfer and the indices not yet acknowledged (on the
/// sending side) or not yet received (on the receiving side).
#[derive(Debug)]
pub struct FileBlocks {
    pub id: usize,
    pub block_size: usize,
    pub block_num: usize,
    pub blocks: Vec<FileBlock>,
    pub remaining: HashSet<usize>,
}

impl View for FileBlocks {
    type V = BlockSetView;

    open spec fn view(&self) -> BlockSetView {
        BlockSetView {
            id: self.id,
            block_size: self.block_size,
            block_num: self.block_num,
            slots: self.blocks@.map_values(|b: FileBlock| b@),
            remaining: self.remaining@,
        }
    }
}

impl Default for FileBlocks {
    /// The invalid block set: transfer id 0, nothing in it.
    fn default() -> (r: FileBlocks)
        ensures
            r@ == (BlockSetView {
                id: 0,
                block_size: 0,
                block_num: 0,
                slots: Seq::empty(),
                remaining: Set::empty(),
            }),
    {
        let r = FileBlocks {
            id: 0,
            block_size: 0,
            block_num: 0,
            blocks: Vec::new(),
            remaining: HashSet::new(),
        };
        assert(r@.slots =~= Seq::empty());
        r
    }
}

/// Builds the set of indices `0 .. n`.
fn all_indices(n: usize) -> (r: HashSet<usize>)
    ensures
        r@ == index_set(n),
{
    let mut s: HashSet<usize> = HashSet::new();
    let mut i: usize = 0;
    while i < n
        invariant
            i <= n,
            s@ == index_set(i),
        decreases n - i,
    {
        s.insert(i);
        i = i + 1;
        assert(s@ =~= index_set(i));
    }
    s
}

/// Every block index below the count starts inside the data.
proof fn lemma_block_start(len: nat, size: nat, i: nat)
    requires
        size > 0,
        i < block_count(len, size),
    ensures
        i * size < len,
        (i + 1) * size <= len || i + 1 == block_count(len, size),
{
    let q = len / size;
    let r = len % size;
    assert(len == q * size + r) by (nonlinear_arith)
        requires
            size > 0,
            q == len / size,
            r == len % size,
    ;
    assert(0 <= r < size) by (nonlinear_arith)
        requires
            size > 0,
            r == len % size,
    ;
    if r == 0 {
        assert(i < q);
        assert(i * size < len && (i + 1) * size <= len) by (nonlinear_arith)
            requires
                i < q,
                len == q * size,
                size > 0,
        ;
    } else {
        assert(i <= q);
        assert(i * size < len) by (nonlinear_arith)
            requires
                i <= q,
                len == q * size + r,
                r > 0,
                size > 0,
        ;
        if i < q {
            assert((i + 1) * size <= len) by (nonlinear_arith)
                requires
                    i < q,
                    len == q * size + r,
                    size > 0,
            ;
        }
    }
}

impl FileBlocks {
    /// An empty block set for transfer `id` with the standard block size.
    pub fn new(id: usize) -> (r: FileBlocks)
        ensures
            r@ == (BlockSetView {
                id,
                block_size: BLOCK_SIZE,
                block_num: 0,
                slots: Seq::empty(),
                remaining: Set::empty(),
            }),
    {
        let r = FileBlocks {
            id,
            block_size: BLOCK_SIZE,
            block_num: 0,
            blocks: Vec::new(),
            remaining: HashSet::new(),
        };
        assert(r@.slots =~= Seq::empty());
        r
    }

    /// The descriptor of the set: id, block size, count and outstanding
    /// indices, without the blocks.
    pub fn info(&self) -> (r: FileBlocks)
        ensures
            r@ == (BlockSetView {
                slots: Seq::empty(),
                remaining: self@.remaining.intersect(index_set(self.block_num)),
                ..self@
            }),
    {
        let mut rest: HashSet<usize> = HashSet::new();
        let mut i: usize = 0;
        while i < self.block_num
            invariant
                i <= self.block_num,
                rest@ == self.remaining@.intersect(index_set(i)),
            decreases self.block_num - i,
        {
            if self.remaining.contains(&i) {
                rest.insert(i);
            }
            i = i + 1;
            assert(rest@ =~= self.remaining@.intersect(index_set(i)));
        }
        let r = FileBlocks {
            id: self.id,
            block_size: self.block_size,
            block_num: self.block_num,
            blocks: Vec::new(),
            remaining: rest,
        };
        assert(r@.slots =~= Seq::empty());
        r
    }

    /// A set is valid when it names a transfer: id 0 names none.
    pub fn is_valid(&self) -> (r: bool)
        ensures
            r == (self.id != 0),
    {
        self.id != 0
    }

    /// Prepares a set received as a descriptor: one slot per block (slots
    /// already there are kept, new ones are empty) and every index
    /// outstanding.
    pub fn init(&mut self)
        ensures
            final(self)@ == old(self)@.initialized(),
            final(self)@.wf(),
    {
        self.remaining = all_indices(self.block_num);
        let n = self.block_num;
        let ghost before = self@.slots;
        if self.blocks.len() > n {
            self.blocks.truncate(n);
        }
        while self.blocks.len() < n
            invariant
                self.block_num == n,
                self.id == old(self).id,
                self.block_size == old(self).block_size,
                self.remaining@ == index_set(n),
                self.blocks.len() <= n,
                forall|i: int|
                    0 <= i < self.blocks.len() ==> #[trigger] self@.slots[i] == if i < before.len() {
                        before[i]
                    } else {
                        empty_block()
                    },
                self.blocks.len() >= before.len() || self.blocks.len() == n,
            decreases n - self.blocks.len(),
        {
            let ghost prev = self@.slots;
            self.blocks.push(FileBlock::default());
            assert(self@.slots =~= prev.push(empty_block()));
        }
        assert(self@.slots =~= old(self)@.initialized().slots);
    }

    /// Cuts `data` into the blocks of this transfer and marks all of them
    /// outstanding. An empty payload gives no block.
    pub fn load(&mut self, data: Vec<u8>)
        requires
            old(self).block_size > 0,
        ensures
            final(self).id == old(self).id,
            final(self).block_size == old(self).block_size,
            final(self).block_num == block_count(data@.len(), old(self).block_size as nat),
            final(self)@.slots == split_slots(old(self).id, data@, old(self).block_size as nat),
            final(self)@.remaining == index_set(final(self).block_num),
            final(self)@.wf(),
    {
        let size = self.block_size;
        let len = data.len();
        proof {
            if len % size != 0 {
                assert(len / size < len) by (nonlinear_arith)
                    requires
                        size > 0,
                        len % size != 0,
                ;
            }
        }
        let n: usize = if len % size == 0 {
            len / size
        } else {
            len / size + 1
        };
        let ghost target = split_slots(self.id, data@, size as nat);
        let mut blocks: Vec<FileBlock> = Vec::new();
        let mut i: usize = 0;
        while i < n
            invariant
                n == block_count(len as nat, size as nat),
                size == self.block_size,
                size > 0,
                len == data@.len(),
                target == split_slots(self.id, data@, size as nat),
                i <= n,
                blocks@.len() == i,
                forall|j: int| 0 <= j < i ==> #[trigger] blocks@[j]@ == target[j],
            decreases n - i,
        {
            proof {
                lemma_block_start(len as nat, size as nat, i as nat);
            }
            let start = i * size;
            let end = if len - start > size {
                start + size
            } else {
                len
            };
            proof {
                if len - start > size {
                    assert((i + 1) * size == start + size) by (nonlinear_arith)
                        requires
                            start == i * size,
                    ;
                } else {
                    assert((i + 1) * size >= len) by (nonlinear_arith)
                        requires
                            start == i * size,
                            len - start <= size,
                    ;
                }
            }
            let part = slice_to_vec(slice_subrange(data.as_slice(), start, end));
            blocks.push(FileBlock { file_id: self.id, index: i, data: part });
            i = i + 1;
        }
        self.block_num = n;
        self.blocks = blocks;
        self.remaining = all_indices(n);
        assert(self@.slots =~= target);
    }

    /// The wire form of block `index`, or of the empty block when there is
    /// no such slot.
    pub fn get(&self, index: usize) -> (r: Vec<u8>)
        ensures
            r@ == block_bytes(
                if index < self@.slots.len() {
                    self@.slots[index as int]
                } else {
                    empty_block()
                },
            ),
    {
        if index < self.blocks.len() {
            self.blocks[index].to_bytes()
        } else {
            FileBlock::default().to_bytes()
        }
    }

    /// Marks `index` acknowledged; true when it was outstanding.
    pub fn done(&mut self, index: usize) -> (r: bool)
        ensures
            final(self)@ == old(self)@.marked(index),
            r == old(self)@.remaining.contains(index),
    {
        self.remaining.remove(&index)
    }

    /// Puts a received block into its slot. A block of another transfer or
    /// with an index that does not exist changes nothing.
    pub fn set(&mut self, fb: FileBlock)
        ensures
            final(self)@ == old(self)@.with_block(fb@),
    {
        let index = fb.index;
        if fb.file_id == self.id && index < self.block_num && index < self.blocks.len() {
            let ghost b = fb@;
            self.blocks.set(index, fb);
            self.remaining.remove(&index);
            assert(self@.slots =~= old(self)@.slots.update(index as int, b));
        }
    }

    /// True when no block is outstanding.
    pub fn is_finished(&self) -> (r: bool)
        ensures
            r == self@.finished(),
    {
        self.remaining.is_empty()
    }

    /// The bytes of all slots in index order: the reassembled payload.
    pub fn assemble(&self) -> (r: Vec<u8>)
        ensures
            r@ == concat_data(self@.slots),
    {
        let mut out: Vec<u8> = Vec::new();
        let mut i: usize = 0;
        while i < self.blocks.len()
            invariant
                i <= self.blocks@.len(),
                out@ == concat_data(self@.slots.subrange(0, i as int)),
            decreases self.blocks@.len() - i,
        {
            let ghost prev = out@;
            put_slice(&mut out, self.blocks[i].data.as_slice());
            i = i + 1;
            assert(self@.slots.subrange(0, i as int).drop_last() =~= self@.slots.subrange(
                0,
                i - 1,
            ));
        }
        assert(self@.slots.subrange(0, i as int) =~= self@.slots);
        out
    }
}

/// The set after the indices of `marks` are marked done, in order.
pub open spec fn after_marks(m: BlockSetView, marks: Seq<usize>) -> BlockSetView
    decreases marks.len(),
{
    if marks.len() == 0 {
        m
    } else {
        after_marks(m, marks.drop_last()).marked(marks.last())
    }
}

/// The set after the blocks of `arrivals` arrive, in order.
pub open spec fn after_blocks(m: BlockSetView, arrivals: Seq<BlockView>) -> BlockSetView
    decreases arrivals.len(),
{
    if arrivals.len() == 0 {
        m
    } else {
        after_blocks(m, arrivals.drop_last()).with_block(arrivals.last())
    }
}

proof fn lemma_after_marks_remaining(m: BlockSetView, marks: Seq<usize>)
    ensures
        after_marks(m, marks).slots == m.slots,
        forall|i: usize|
            #[trigger] after_marks(m, marks).remaining.contains(i) <==> m.remaining.contains(i)
                && !marks.contains(i),
    decreases marks.len(),
{
    if marks.len() > 0 {
        let prev = marks.drop_last();
        lemma_after_marks_remaining(m, prev);
        assert forall|i: usize| marks.contains(i) <==> prev.contains(i) || i == marks.last() by {
            if prev.contains(i) {
                let k = choose|k: int| 0 <= k < prev.len() && prev[k] == i;
                assert(marks[k] == i);
            }
            if marks.contains(i) && i != marks.last() {
                let k = choose|k: int| 0 <= k < marks.len() && marks[k] == i;
                assert(prev[k] == i);
            }
            if i == marks.last() {
                assert(marks[marks.len() - 1] == i);
            }
        }
    }
}

/// A set whose every index is outstanding is finished, after a run of marks,
/// exactly when every index `0 .. block_num` has been marked at least once.
pub proof fn lemma_finished_iff_all_marked(m: BlockSetView, marks: Seq<usize>)
    requires
        m.remaining == index_set(m.block_num),
    ensures
        after_marks(m, marks).finished() <==> (forall|i: usize|
            i < m.block_num ==> #[trigger] marks.contains(i)),
{
    lemma_after_marks_remaining(m, marks);
    let r = after_marks(m, marks).remaining;
    if r.is_empty() {
        assert forall|i: usize| i < m.block_num implies #[trigger] marks.contains(i) by {
            assert(!r.contains(i));
        }
    }
    if forall|i: usize| i < m.block_num ==> #[trigger] marks.contains(i) {
        assert(r =~= Set::empty());
    }
}

/// Marking an index that is not outstanding (marked before, or out of
/// range) changes nothing.
pub proof fn lemma_mark_again(m: BlockSetView, i: usize)
    requires
        !m.remaining.contains(i),
    ensures
        m.marked(i) == m,
{
    assert(m.remaining.remove(i) =~= m.remaining);
}

/// A block of another transfer, or with an index out of range, changes
/// nothing, so it never changes whether the set is finished.
pub proof fn lemma_rejected_block(m: BlockSetView, b: BlockView)
    requires
        b.file_id != m.id || b.index >= m.block_num,
    ensures
        m.with_block(b) == m,
{
}

proof fn lemma_chunk_len(data: Seq<u8>, size: nat, i: nat)
    requires
        size > 0,
        i < block_count(data.len(), size),
    ensures
        i * size < data.len(),
        chunk(data, size, i) == data.subrange(
            (i * size) as int,
            if (i + 1) * size <= data.len() {
                ((i + 1) * size) as int
            } else {
                data.len() as int
            },
        ),
{
    lemma_block_start(data.len(), size, i);
}

proof fn lemma_concat_prefix(id: usize, data: Seq<u8>, size: nat, k: nat)
    requires
        size > 0,
        k <= block_count(data.len(), size),
    ensures
        concat_data(split_slots(id, data, size).subrange(0, k as int)) == data.subrange(
            0,
            if k * size <= data.len() {
                (k * size) as int
            } else {
                data.len() as int
            },
        ),
    decreases k,
{
    let slots = split_slots(id, data, size);
    if k == 0 {
        assert(slots.subrange(0, 0) =~= Seq::<BlockView>::empty());
        assert(data.subrange(0, 0) =~= Seq::<u8>::empty());
    } else {
        let j = (k - 1) as nat;
        lemma_concat_prefix(id, data, size, j);
        lemma_chunk_len(data, size, j);
        assert(slots.subrange(0, k as int).drop_last() =~= slots.subrange(0, j as int));
        assert((j + 1) * size == k * size);
        let end: int = if k * size <= data.len() {
            (k * size) as int
        } else {
            data.len() as int
        };
        assert(j * size <= k * size) by (nonlinear_arith)
            requires
                j < k,
        ;
        assert(slots[j as int].data == chunk(data, size, j));
        assert(slots.subrange(0, k as int).last() == slots[j as int]);
        assert(data.subrange(0, (j * size) as int) + data.subrange((j * size) as int, end)
            =~= data.subrange(0, end));
    }
}

/// Cutting `data` into blocks and delivering every block, in any order and
/// possibly more than once, to a fresh set with the same descriptor fills
/// each slot with the sender's block and finishes the set; the slots put
/// together are exactly `data`, and there are ceil(len / size) of them.
pub proof fn lemma_split_reassemble(id: usize, size: usize, data: Seq<u8>, order: Seq<usize>)
    requires
        size > 0,
        block_count(data.len(), size as nat) <= usize::MAX,
        forall|k: int| 0 <= k < order.len() ==> order[k] < block_count(data.len(), size as nat),
        forall|i: usize|
            i < block_count(data.len(), size as nat) ==> #[trigger] order.contains(i),
    ensures
        ({
            let n = block_count(data.len(), size as nat);
            let slots = split_slots(id, data, size as nat);
            let got = after_blocks(
                BlockSetView::fresh(id, size, n as usize),
                order.map_values(|i: usize| slots[i as int]),
            );
            &&& n == (data.len() + size - 1) / (size as int)
            &&& got.slots == slots
            &&& got.finished()
            &&& concat_data(got.slots) == data
        }),
{
    let n = block_count(data.len(), size as nat);
    let slots = split_slots(id, data, size as nat);
    let start = BlockSetView::fresh(id, size, n as usize);
    let arrivals = order.map_values(|i: usize| slots[i as int]);
    lemma_arrivals(start, slots, order, order.len() as nat);
    assert(arrivals.subrange(0, order.len() as int) =~= arrivals);
    assert(order.subrange(0, order.len() as int) =~= order);
    let got = after_blocks(start, arrivals);
    assert(got.slots =~= slots);
    assert(got.remaining =~= Set::empty());
    lemma_concat_prefix(id, data, size as nat, n);
    assert(slots.subrange(0, n as int) =~= slots);
    lemma_block_count(data.len(), size as nat);
    assert(data.subrange(0, data.len() as int) =~= data);
}

proof fn lemma_block_count(len: nat, size: nat)
    requires
        size > 0,
    ensures
        block_count(len, size) == (len + size - 1) / (size as int),
        block_count(len, size) * size >= len,
{
    let q = len / size;
    let r = len % size;
    assert(len == q * size + r && 0 <= r < size) by (nonlinear_arith)
        requires
            size > 0,
            q == len / size,
            r == len % size,
    ;
    if r == 0 {
        assert((len + size - 1) / (size as int) == q) by (nonlinear_arith)
            requires
                len == q * size,
                size > 0,
        ;
    } else {
        assert((len + size - 1) / (size as int) == q + 1) by (nonlinear_arith)
            requires
                len == q * size + r,
                0 < r < size,
        ;
        assert((q + 1) * size >= len) by (nonlinear_arith)
            requires
                len == q * size + r,
                r < size,
        ;
    }
}

proof fn lemma_arrivals(start: BlockSetView, slots: Seq<BlockView>, order: Seq<usize>, k: nat)
    requires
        k <= order.len(),
        start.slots.len() == start.block_num,
        slots.len() == start.block_num,
        start.remaining == index_set(start.block_num),
        forall|k: int| 0 <= k < order.len() ==> order[k] < start.block_num,
        forall|i: int|
            0 <= i < slots.len() ==> (#[trigger] slots[i]).file_id == start.id && slots[i].index == i,
    ensures
        ({
            let got = after_blocks(
                start,
                order.map_values(|i: usize| slots[i as int]).subrange(0, k as int),
            );
            &&& got.id == start.id
            &&& got.block_num == start.block_num
            &&& got.slots.len() == start.block_num
            &&& forall|i: int|
                0 <= i < slots.len() ==> #[trigger] got.slots[i] == if order.subrange(
                    0,
                    k as int,
                ).contains(i as usize) {
                    slots[i]
                } else {
                    start.slots[i]
                }
            &&& forall|i: usize|
                #[trigger] got.remaining.contains(i) <==> i < start.block_num && !order.subrange(
                    0,
                    k as int,
                ).contains(i)
        }),
    decreases k,
{
    let all = order.map_values(|i: usize| slots[i as int]);
    if k == 0 {
        assert(all.subrange(0, 0) =~= Seq::<BlockView>::empty());
    } else {
        let j = (k - 1) as nat;
        lemma_arrivals(start, slots, order, j);
        let prefix = order.subrange(0, k as int);
        let before = order.subrange(0, j as int);
        assert(all.subrange(0, k as int).drop_last() =~= all.subrange(0, j as int));
        let prev = after_blocks(start, all.subrange(0, j as int));
        let idx = order[j as int];
        let b = slots[idx as int];
        assert(all.subrange(0, k as int).last() == b);
        assert(idx < start.block_num);
        assert(b.file_id == start.id && b.index == idx);
        assert(prev.accepts(b));
        assert forall|i: usize| prefix.contains(i) <==> before.contains(i) || i == idx by {
            if before.contains(i) {
                let t = choose|t: int| 0 <= t < before.len() && before[t] == i;
                assert(prefix[t] == i);
            }
            if prefix.contains(i) && i != idx {
                let t = choose|t: int| 0 <= t < prefix.len() && prefix[t] == i;
                assert(t != j);
                assert(before[t] == i);
            }
            if i == idx {
                assert(prefix[j as int] == i);
            }
        }
    }
}

/// What a catalog entry is.
pub struct FileStateView {
    pub is_folder: bool,
    pub is_linked: Option<Seq<char>>,
    pub is_local: bool,
    pub is_synced: bool,
    pub name: Seq<char>,
}

/// A file known to the catalog.
#[derive(Debug)]
pub struct FileState {
    /// The entry is a folder.
    pub is_folder: bool,
    /// A path in the file system that the entry points to; without one a
    /// local entry lives in the catalog's own folder.
    pub is_linked: Option<String>,
    /// The file comes from this host rather than from a peer.
    pub is_local: bool,
    /// The file is present in its folder (copied when local, downloaded when
    /// remote).
    pub is_synced: bool,
    /// The file's name in its folder.
    pub name: String,
}

impl View for FileState {
    type V = FileStateView;

    open spec fn view(&self) -> FileStateView {
        FileStateView {
            is_folder: self.is_folder,
            is_linked: match self.is_linked {
                Some(p) => Some(p@),
                None => None,
            },
            is_local: self.is_local,
            is_synced: self.is_synced,
            name: self.name@,
        }
    }
}

/// Where a file lives: remote files in the download folder, linked local
/// files at their link, other local files in the catalog's folder.
pub open spec fn path_of(f: FileStateView) -> Seq<char> {
    if !f.is_local {
        "./downloads/"@ + f.name
    } else {
        match f.is_linked {
            Some(p) => p,
            None => "./.file-net/"@ + f.name,
        }
    }
}

impl FileState {
    /// The path at which the file is read or written.
    pub fn get_path(&self) -> (r: String)
        ensures
            r@ == path_of(self@),
    {
        if !self.is_local {
            let mut p = "./downloads/".to_owned();
            p.append(self.name.as_str());
            p
        } else {
            match &self.is_linked {
                Some(link) => link.clone(),
                None => {
                    let mut p = "./.file-net/".to_owned();
                    p.append(self.name.as_str());
                    p
                },
            }
        }
    }

    /// A copy of the entry.
    pub fn duplicate(&self) -> (r: FileState)
        ensures
            r@ == self@,
    {
        FileState {
            is_folder: self.is_folder,
            is_linked: match &self.is_linked {
                Some(p) => Some(p.clone()),
                None => None,
            },
            is_local: self.is_local,
            is_synced: self.is_synced,
            name: self.name.clone(),
        }
    }
}

/// A catalog entry together with whether it is selected in a listing.
#[derive(Debug)]
pub struct FileStateExtend {
    pub f: FileState,
    pub is_selected: bool,
}

/// The catalog of known files.
#[derive(Debug)]
pub struct FileManager {
    /// State of the files to list.
    pub files: Vec<FileStateExtend>,
    /// Folder to which files are saved.
    pub storage: String,
    /// Folder in which the catalog itself is saved.
    pub structure: String,
    /// Folder that is shown.
    pub current: String,
    /// Entries of the folder that is shown.
    pub current_files: Vec<FileStateExtend>,
}

impl FileManager {
    /// An empty catalog over the standard folders.
    pub fn new() -> (r: FileManager)
        ensures
            r.files@.len() == 0,
            r.current_files@.len() == 0,
            r.storage@ == "./.file-net/"@,
            r.structure@ == "./.file-net-struct/"@,
            r.current@ == ""@,
    {
        FileManager {
            files: Vec::new(),
            storage: "./.file-net/".to_owned(),
            structure: "./.file-net-struct/".to_owned(),
            current: "".to_owned(),
            current_files: Vec::new(),
        }
    }

    /// The entries of the folder that is shown.
    pub fn list_files(&self) -> (r: &Vec<FileStateExtend>)
        ensures
            r == &self.current_files,
    {
        &self.current_files
    }

    /// Adds an entry to the folder that is shown.
    pub fn add_file(&mut self, f: FileStateExtend)
        ensures
            final(self).current_files@ == old(self).current_files@.push(f),
            final(self).files@ == old(self).files@,
            final(self).storage == old(self).storage,
            final(self).structure == old(self).structure,
            final(self).current == old(self).current,
    {
        self.current_files.push(f);
    }
}

} // verus!
