//! Test files for transfers: files whose content can be checked after they
//! have travelled.
//!
//! Layout: the file length as a 64-bit word; then records, each a 16-bit
//! word `n`, `n` random bytes and the hash of both; the records are cut so
//! that the file ends with the hash of everything before it.

use crate::codec::u64_bytes;
use rand::RngCore;
use std::collections::hash_map::DefaultHasher;
use std::hash::Hasher;
use vstd::bytes::{
    spec_u16_from_le_bytes, spec_u16_to_le_bytes, spec_u64_from_le_bytes, u16_from_le_bytes,
    u16_to_le_bytes, u64_from_le_bytes, u64_to_le_bytes,
};
use vstd::prelude::*;
use vstd::slice::slice_subrange;
use vstd::std_specs::hash::DefaultHasherAdditionalSpecFns;

verus! {

/// Size of a stored hash, and of the length word.
pub const HASH_SIZE: usize = 8;

/// What is wrong with a test file.
#[derive(Clone, Copy, Debug, PartialEq, Eq, Structural)]
pub enum LayoutError {
    /// The file is shorter than its length word.
    TooShort,
    /// The length asked for differs from the one the file declares.
    LengthMismatch { expected: usize, actual: usize },
    /// The file's size differs from the length it declares.
    SizeMismatch { declared: u64, actual: usize },
    /// The hash at the end does not match the content.
    FileHashMismatch { stored: u64, computed: u64 },
    /// A record's hash does not match the record: its index and the byte
    /// range of its word and bytes.
    RecordHashMismatch { index: usize, from: usize, to: usize, expected: u64, actual: u64 },
}

/// The hash that guards a record: the standard hasher fed the word, then
/// the length and bytes of the record's bytes.
pub open spec fn record_hash(val: u16, buf: Seq<u8>) -> u64 {
    DefaultHasher::spec_finish(seq![spec_u16_to_le_bytes(val), u64_bytes(buf.len() as u64), buf])
}

/// The hash that ends the file: the standard hasher fed the length and
/// bytes of everything before it.
pub open spec fn body_hash(body: Seq<u8>) -> u64 {
    DefaultHasher::spec_finish(seq![u64_bytes(body.len() as u64), body])
}

/// Checks the records in `r` from `pos` on; `index` counts the records
/// before, and `r` starts at offset 8 of the file. A record that does not
/// fit entirely ends the walk.
pub open spec fn walk(r: Seq<u8>, pos: nat, index: nat) -> Result<(), LayoutError>
    decreases r.len() - pos,
{
    if r.len() <= pos + 2 {
        Ok(())
    } else {
        let val = spec_u16_from_le_bytes(r.subrange(pos as int, pos + 2 as int));
        let p = pos + 2;
        if r.len() < p + val + 8 {
            Ok(())
        } else {
            let buf = r.subrange(p as int, (p + val) as int);
            let stored = spec_u64_from_le_bytes(r.subrange((p + val) as int, (p + val + 8) as int));
            if stored != record_hash(val, buf) {
                Err(
                    LayoutError::RecordHashMismatch {
                        index: index as usize,
                        from: (8 + pos) as usize,
                        to: (8 + pos + 2 + val) as usize,
                        expected: record_hash(val, buf),
                        actual: stored,
                    },
                )
            } else {
                walk(r, (p + val + 8) as nat, index + 1)
            }
        }
    }
}

/// The verdict on a test file `d`, given the length it should have.
pub open spec fn layout_check(d: Seq<u8>, expected: Option<usize>) -> Result<(), LayoutError> {
    if d.len() < 8 {
        Err(LayoutError::TooShort)
    } else {
        let declared = spec_u64_from_le_bytes(d.subrange(0, 8));
        if expected is Some && expected->0 != declared {
            Err(LayoutError::LengthMismatch { expected: expected->0, actual: declared as usize })
        } else if d.len() != declared {
            Err(LayoutError::SizeMismatch { declared, actual: d.len() as usize })
        } else {
            let n = d.len() - 8;
            let stored = spec_u64_from_le_bytes(d.subrange(n, n + 8));
            if stored != body_hash(d.subrange(0, n)) {
                Err(
                    LayoutError::FileHashMismatch {
                        stored,
                        computed: body_hash(d.subrange(0, n)),
                    },
                )
            } else if n <= 8 {
                Ok(())
            } else {
                walk(d.subrange(8, n), 0, 0)
            }
        }
    }
}

fn hash_record(val: u16, buf: &[u8]) -> (r: u64)
    ensures
        r == record_hash(val, buf@),
{
    let mut h = DefaultHasher::new();
    let word = u16_to_le_bytes(val);
    h.write(word.as_slice());
    let len = u64_to_le_bytes(buf.len() as u64);
    h.write(len.as_slice());
    h.write(buf);
    assert(h@ =~= seq![spec_u16_to_le_bytes(val), u64_bytes(buf@.len() as u64), buf@]);
    h.finish()
}

fn hash_body(body: &[u8]) -> (r: u64)
    ensures
        r == body_hash(body@),
{
    let mut h = DefaultHasher::new();
    let len = u64_to_le_bytes(body.len() as u64);
    h.write(len.as_slice());
    h.write(body);
    assert(h@ =~= seq![u64_bytes(body@.len() as u64), body@]);
    h.finish()
}

/// Checks the layout of a test file; `expected` is the length it should
/// have, if known.
pub fn check_layout(d: &[u8], expected: Option<usize>) -> (r: Result<(), LayoutError>)
    ensures
        r == layout_check(d@, expected),
{
    if d.len() < 8 {
        return Err(LayoutError::TooShort);
    }
    let declared = u64_from_le_bytes(slice_subrange(d, 0, 8));
    if let Some(len) = expected {
        if len as u64 != declared {
            return Err(LayoutError::LengthMismatch { expected: len, actual: declared as usize });
        }
    }
    if d.len() as u64 != declared {
        return Err(LayoutError::SizeMismatch { declared, actual: d.len() });
    }
    let n = d.len() - 8;
    let stored = u64_from_le_bytes(slice_subrange(d, n, n + 8));
    let computed = hash_body(slice_subrange(d, 0, n));
    if stored != computed {
        return Err(LayoutError::FileHashMismatch { stored, computed });
    }
    if n <= 8 {
        return Ok(());
    }
    let region = slice_subrange(d, 8, n);
    assert(layout_check(d@, expected) == walk(region@, 0, 0));
    let mut pos: usize = 0;
    let mut index: usize = 0;
    while region.len() - pos > 2
        invariant
            pos <= region@.len(),
            index <= pos,
            region@.len() + 8 <= usize::MAX,
            walk(region@, pos as nat, index as nat) == walk(region@, 0, 0),
            layout_check(d@, expected) == walk(region@, 0, 0),
        decreases region@.len() - pos,
    {
        let val = u16_from_le_bytes(slice_subrange(region, pos, pos + 2));
        let p = pos + 2;
        assert(val == spec_u16_from_le_bytes(region@.subrange(pos as int, pos + 2)));
        if region.len() - p < val as usize + 8 {
            assert(walk(region@, pos as nat, index as nat) == Ok::<(), LayoutError>(()));
            return Ok(());
        }
        let buf = slice_subrange(region, p, p + val as usize);
        let expected_hash = hash_record(val, buf);
        let stored = u64_from_le_bytes(
            slice_subrange(region, p + val as usize, p + val as usize + 8),
        );
        if stored != expected_hash {
            return Err(
                LayoutError::RecordHashMismatch {
                    index,
                    from: 8 + pos,
                    to: 8 + pos + 2 + val as usize,
                    expected: expected_hash,
                    actual: stored,
                },
            );
        }
        pos = p + val as usize + 8;
        index = index + 1;
    }
    Ok(())
}

/// Relies on `rand::random` for a uniformly drawn 16-bit word; nothing is
/// known of the value.
#[verifier::external_body]
fn random_word() -> (r: u16) {
    rand::random::<u16>()
}

/// Relies on `rand::thread_rng` and `RngCore::fill_bytes`, which overwrites
/// every byte of the buffer it is given: `n` random bytes.
#[verifier::external_body]
fn random_bytes(n: usize) -> (r: Vec<u8>)
    ensures
        r@.len() == n,
{
    let mut buf = vec![0u8; n];
    rand::thread_rng().fill_bytes(&mut buf);
    buf
}

/// A test file of `length` bytes: the length word, random records, and the
/// hash of everything before it at the end.
pub fn generate_layout(length: usize) -> (r: Vec<u8>)
    requires
        length >= 8,
        length <= usize::MAX - 70000,
    ensures
        r@.len() == length,
        length >= 16 ==> r@.subrange(0, 8) == u64_bytes(length as u64),
        spec_u64_from_le_bytes(r@.subrange(length - 8, length as int)) == body_hash(
            r@.subrange(0, length - 8),
        ),
        length >= 16 ==> layout_check(r@, Some(length)) is Ok,
{
    let mut data: Vec<u8> = u64_to_le_bytes(length as u64);
    assert(data@.subrange(8, 8) =~= Seq::<u8>::empty());
    while data.len() < length - HASH_SIZE
        invariant
            8 <= length,
            8 <= data@.len() < length + 65545,
            length <= usize::MAX - 70000,
            data@.subrange(0, 8) == u64_bytes(length as u64),
            sound_records(data@.subrange(8, data@.len() as int), 0),
        decreases length + 65545 - data@.len(),
    {
        let ghost before = data@;
        let val = random_word();
        let word = u16_to_le_bytes(val);
        crate::codec::put_slice(&mut data, word.as_slice());
        let buf = random_bytes(val as usize);
        crate::codec::put_slice(&mut data, buf.as_slice());
        let h = hash_record(val, buf.as_slice());
        let tail = u64_to_le_bytes(h);
        crate::codec::put_slice(&mut data, tail.as_slice());
        assert(data@.subrange(0, 8) =~= before.subrange(0, 8));
        proof {
            lemma_sound_extend(before.subrange(8, before.len() as int), 0, val, buf@);
            assert(data@.subrange(8, data@.len() as int) =~= before.subrange(8, before.len() as int)
                + record_bytes(val, buf@));
        }
    }
    let ghost full = data@;
    data.truncate(length - HASH_SIZE);
    let h = hash_body(data.as_slice());
    let ghost body = data@;
    let tail = u64_to_le_bytes(h);
    crate::codec::put_slice(&mut data, tail.as_slice());
    proof {
        vstd::bytes::lemma_auto_spec_u64_to_from_le_bytes();
        assert(data@.subrange(0, length - 8) =~= body);
        assert(data@.subrange(length - 8, length as int) =~= tail@);
        if length >= 16 {
            assert(data@.subrange(0, 8) =~= full.subrange(0, 8));
            let records = full.subrange(8, full.len() as int);
            assert(records.subrange(0, length - 16) =~= data@.subrange(8, length - 8));
            lemma_generated_passes(data@, length);
        }
    }
    data
}

/// The records of `r` from `pos` on are all complete, all carry the right
/// hash, and end exactly at the end of `r`.
spec fn sound_records(r: Seq<u8>, pos: nat) -> bool
    decreases r.len() - pos,
{
    if r.len() <= pos {
        r.len() == pos
    } else if r.len() < pos + 2 {
        false
    } else {
        let val = spec_u16_from_le_bytes(r.subrange(pos as int, pos + 2 as int));
        let p = pos + 2;
        if r.len() < p + val + 8 {
            false
        } else {
            spec_u64_from_le_bytes(r.subrange((p + val) as int, (p + val + 8) as int))
                == record_hash(val, r.subrange(p as int, (p + val) as int)) && sound_records(
                r,
                (p + val + 8) as nat,
            )
        }
    }
}

/// One record: its word, its bytes, and their hash.
spec fn record_bytes(val: u16, buf: Seq<u8>) -> Seq<u8> {
    spec_u16_to_le_bytes(val) + buf + u64_bytes(record_hash(val, buf))
}

proof fn lemma_sound_extend(r: Seq<u8>, pos: nat, val: u16, buf: Seq<u8>)
    requires
        sound_records(r, pos),
        buf.len() == val,
    ensures
        sound_records(r + record_bytes(val, buf), pos),
    decreases r.len() - pos,
{
    vstd::bytes::lemma_auto_spec_u64_to_from_le_bytes();
    vstd::bytes::lemma_auto_spec_u16_to_from_le_bytes();
    let rec = record_bytes(val, buf);
    let w = r + rec;
    assert(spec_u16_to_le_bytes(val).len() == 2);
    assert(u64_bytes(record_hash(val, buf)).len() == 8);
    if r.len() <= pos {
        assert(w.subrange(pos as int, pos + 2 as int) =~= spec_u16_to_le_bytes(val));
        let p = pos + 2;
        assert(w.subrange(p as int, (p + val) as int) =~= buf);
        assert(w.subrange((p + val) as int, (p + val + 8) as int) =~= u64_bytes(
            record_hash(val, buf),
        ));
        assert(w.len() == p + val + 8);
        assert(spec_u16_from_le_bytes(w.subrange(pos as int, pos + 2 as int)) == val);
        assert(sound_records(w, (p + val + 8) as nat));
    } else {
        let v = spec_u16_from_le_bytes(r.subrange(pos as int, pos + 2 as int));
        let p = pos + 2;
        assert(r.len() >= p + v + 8);
        assert(w.subrange(pos as int, pos + 2 as int) =~= r.subrange(pos as int, pos + 2 as int));
        assert(w.subrange(p as int, (p + v) as int) =~= r.subrange(p as int, (p + v) as int));
        assert(w.subrange((p + v) as int, (p + v + 8) as int) =~= r.subrange(
            (p + v) as int,
            (p + v + 8) as int,
        ));
        lemma_sound_extend(r, (p + v + 8) as nat, val, buf);
        assert(sound_records(w, pos));
    }
}

proof fn lemma_prefix_walk(r: Seq<u8>, c: nat, pos: nat, index: nat)
    requires
        sound_records(r, pos),
        c <= r.len(),
    ensures
        walk(r.subrange(0, c as int), pos, index) == Ok::<(), LayoutError>(()),
    decreases r.len() - pos,
{
    let q = r.subrange(0, c as int);
    if q.len() <= pos + 2 {
    } else {
        assert(q.subrange(pos as int, pos + 2 as int) =~= r.subrange(pos as int, pos + 2 as int));
        let val = spec_u16_from_le_bytes(r.subrange(pos as int, pos + 2 as int));
        let p = pos + 2;
        if q.len() < p + val + 8 {
        } else {
            assert(q.subrange(p as int, (p + val) as int) =~= r.subrange(p as int, (p + val) as int));
            assert(q.subrange((p + val) as int, (p + val + 8) as int) =~= r.subrange(
                (p + val) as int,
                (p + val + 8) as int,
            ));
            lemma_prefix_walk(r, c, (p + val + 8) as nat, index + 1);
        }
    }
}

/// A file laid out as the generator lays it out passes the check.
proof fn lemma_generated_passes(d: Seq<u8>, length: usize)
    requires
        length >= 16,
        d.len() == length,
        d.subrange(0, 8) == u64_bytes(length as u64),
        spec_u64_from_le_bytes(d.subrange(length - 8, length as int)) == body_hash(
            d.subrange(0, length - 8),
        ),
        exists|full: Seq<u8>|
            sound_records(full, 0) && #[trigger] full.subrange(0, length - 16) == d.subrange(
                8,
                length - 8,
            ) && full.len() >= length - 16,
    ensures
        layout_check(d, Some(length)) == Ok::<(), LayoutError>(()),
{
    vstd::bytes::lemma_auto_spec_u64_to_from_le_bytes();
    assert(spec_u64_from_le_bytes(d.subrange(0, 8)) == length);
    let full = choose|full: Seq<u8>|
        sound_records(full, 0) && #[trigger] full.subrange(0, length - 16) == d.subrange(
            8,
            length - 8,
        ) && full.len() >= length - 16;
    lemma_prefix_walk(full, (length - 16) as nat, 0, 0);
}

} // verus!
