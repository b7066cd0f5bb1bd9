//! Little-endian words, length-prefixed byte strings and message framing.

use vstd::bytes::*;
use vstd::prelude::*;
use vstd::slice::*;
use vstd::utf8::*;
use vstd::string::*;

verus! {

broadcast use vstd::seq_lib::group_seq_properties, vstd::utf8::group_utf8_lib;

/// Length of the header that precedes every framed message.
pub const FRAME_HEADER_LEN: usize = 8;

/// The eight little-endian bytes of `n`.
pub open spec fn u64_bytes(n: u64) -> Seq<u8> {
    spec_u64_to_le_bytes(n)
}

/// The four little-endian bytes of `n`.
pub open spec fn u32_bytes(n: u32) -> Seq<u8> {
    spec_u32_to_le_bytes(n)
}

/// A byte string on the wire: its length as a 64-bit word, then its bytes.
pub open spec fn bytes_field(b: Seq<u8>) -> Seq<u8> {
    u64_bytes(b.len() as u64) + b
}

/// A text on the wire: its UTF-8 encoding as a byte string.
pub open spec fn str_field(c: Seq<char>) -> Seq<u8> {
    bytes_field(encode_utf8(c))
}

/// A flag on the wire: one byte, 0 or 1.
pub open spec fn bool_field(v: bool) -> Seq<u8> {
    if v { seq![1u8] } else { seq![0u8] }
}

/// A framed message: the payload length as a 64-bit word, then the payload.
pub open spec fn frame_of(payload: Seq<u8>) -> Seq<u8> {
    bytes_field(payload)
}

/// Reads a 64-bit word at `pos`; the result carries the position after it.
pub open spec fn read_u64_at(b: Seq<u8>, pos: int) -> Option<(u64, int)> {
    if 0 <= pos && pos + 8 <= b.len() {
        Some((spec_u64_from_le_bytes(b.subrange(pos, pos + 8)), pos + 8))
    } else {
        None
    }
}

/// Reads a 32-bit word at `pos`.
pub open spec fn read_u32_at(b: Seq<u8>, pos: int) -> Option<(u32, int)> {
    if 0 <= pos && pos + 4 <= b.len() {
        Some((spec_u32_from_le_bytes(b.subrange(pos, pos + 4)), pos + 4))
    } else {
        None
    }
}

/// Reads a flag at `pos`: only the bytes 0 and 1 are flags.
pub open spec fn read_bool_at(b: Seq<u8>, pos: int) -> Option<(bool, int)> {
    if 0 <= pos && pos < b.len() && b[pos] <= 1 {
        Some((b[pos] == 1, pos + 1))
    } else {
        None
    }
}

/// Reads a length-prefixed byte string at `pos`.
pub open spec fn read_bytes_at(b: Seq<u8>, pos: int) -> Option<(Seq<u8>, int)> {
    match read_u64_at(b, pos) {
        Some((n, p)) => if p + n <= b.len() {
            Some((b.subrange(p, p + n), p + n))
        } else {
            None
        },
        None => None,
    }
}

/// Reads a text at `pos`: a byte string that must be well-formed UTF-8.
pub open spec fn read_str_at(b: Seq<u8>, pos: int) -> Option<(Seq<char>, int)> {
    match read_bytes_at(b, pos) {
        Some((s, p)) => if valid_utf8(s) {
            Some((decode_utf8(s), p))
        } else {
            None
        },
        None => None,
    }
}

/// Forgets the machine type of a position in a reader's result.
pub open spec fn at_int<T>(r: Option<(T, usize)>) -> Option<(T, int)> {
    match r {
        Some((v, p)) => Some((v, p as int)),
        None => None,
    }
}

/// `b` holds `field` at `pos`.
pub open spec fn holds_at(b: Seq<u8>, pos: int, field: Seq<u8>) -> bool {
    0 <= pos && pos + field.len() <= b.len() && b.subrange(pos, pos + field.len()) == field
}

pub proof fn lemma_u64_bytes(n: u64)
    ensures
        u64_bytes(n).len() == 8,
        spec_u64_from_le_bytes(u64_bytes(n)) == n,
{
    lemma_auto_spec_u64_to_from_le_bytes();
}

pub proof fn lemma_u32_bytes(n: u32)
    ensures
        u32_bytes(n).len() == 4,
        spec_u32_from_le_bytes(u32_bytes(n)) == n,
{
    lemma_auto_spec_u32_to_from_le_bytes();
    assert(spec_u32_to_le_bytes(n).len() == 4);
}

/// A word written at `pos` is read back from there.
pub proof fn lemma_read_u64(b: Seq<u8>, pos: int, n: u64)
    requires
        holds_at(b, pos, u64_bytes(n)),
    ensures
        read_u64_at(b, pos) == Some((n, pos + 8)),
{
    lemma_u64_bytes(n);
}

/// A word that is read is the one whose bytes stand there.
pub proof fn lemma_u64_read_back(b: Seq<u8>, pos: int)
    requires
        read_u64_at(b, pos) is Some,
    ensures
        match read_u64_at(b, pos) {
            Some((v, p)) => holds_at(b, pos, u64_bytes(v)) && p == pos + 8,
            None => true,
        },
{
    lemma_auto_spec_u64_to_from_le_bytes();
    assert(b.subrange(pos, pos + 8).len() == 8);
}

pub proof fn lemma_read_u32(b: Seq<u8>, pos: int, n: u32)
    requires
        holds_at(b, pos, u32_bytes(n)),
    ensures
        read_u32_at(b, pos) == Some((n, pos + 4)),
{
    lemma_u32_bytes(n);
}

pub proof fn lemma_u32_read_back(b: Seq<u8>, pos: int)
    requires
        read_u32_at(b, pos) is Some,
    ensures
        match read_u32_at(b, pos) {
            Some((v, p)) => holds_at(b, pos, u32_bytes(v)) && p == pos + 4,
            None => true,
        },
{
    lemma_auto_spec_u32_to_from_le_bytes();
    assert(b.subrange(pos, pos + 4).len() == 4);
}

/// Reads a machine-sized count written as a 64-bit word; it must fit.
pub open spec fn read_usize_at(b: Seq<u8>, pos: int) -> Option<(usize, int)> {
    match read_u64_at(b, pos) {
        Some((v, p)) => if v <= usize::MAX {
            Some((v as usize, p))
        } else {
            None
        },
        None => None,
    }
}

/// A machine-sized count on the wire: a 64-bit word.
pub open spec fn usize_field(n: usize) -> Seq<u8> {
    u64_bytes(n as u64)
}

/// A field written at `pos` and a second one right after it form one run.
pub proof fn lemma_holds_split(b: Seq<u8>, pos: int, x: Seq<u8>, y: Seq<u8>)
    requires
        holds_at(b, pos, x + y),
    ensures
        holds_at(b, pos, x),
        holds_at(b, pos + x.len(), y),
{
    let whole = b.subrange(pos, pos + x.len() + y.len());
    assert(whole == x + y);
    assert(b.subrange(pos, pos + x.len()) =~= whole.subrange(0, x.len() as int));
    assert(whole.subrange(0, x.len() as int) =~= x);
    assert(b.subrange(pos + x.len(), pos + x.len() + y.len()) =~= whole.subrange(
        x.len() as int,
        whole.len() as int,
    ));
    assert(whole.subrange(x.len() as int, whole.len() as int) =~= y);
}

pub proof fn lemma_holds_join(b: Seq<u8>, pos: int, x: Seq<u8>, y: Seq<u8>)
    requires
        holds_at(b, pos, x),
        holds_at(b, pos + x.len(), y),
    ensures
        holds_at(b, pos, x + y),
{
    assert(b.subrange(pos, pos + x.len() + y.len()) =~= x + y);
}

pub proof fn lemma_read_usize(b: Seq<u8>, pos: int, n: usize)
    requires
        holds_at(b, pos, usize_field(n)),
    ensures
        read_usize_at(b, pos) == Some((n, pos + 8)),
{
    lemma_read_u64(b, pos, n as u64);
}

pub proof fn lemma_usize_read_back(b: Seq<u8>, pos: int)
    requires
        read_usize_at(b, pos) is Some,
    ensures
        match read_usize_at(b, pos) {
            Some((v, p)) => holds_at(b, pos, usize_field(v)) && p == pos + 8,
            None => true,
        },
{
    lemma_u64_read_back(b, pos);
}

pub proof fn lemma_read_bool(b: Seq<u8>, pos: int, v: bool)
    requires
        holds_at(b, pos, bool_field(v)),
    ensures
        read_bool_at(b, pos) == Some((v, pos + 1)),
{
    assert(b[pos] == b.subrange(pos, pos + 1)[0]);
}

pub proof fn lemma_bool_read_back(b: Seq<u8>, pos: int)
    requires
        read_bool_at(b, pos) is Some,
    ensures
        match read_bool_at(b, pos) {
            Some((v, p)) => holds_at(b, pos, bool_field(v)) && p == pos + 1,
            None => true,
        },
{
    assert(b.subrange(pos, pos + 1) =~= seq![b[pos]]);
}

pub proof fn lemma_read_bytes(b: Seq<u8>, pos: int, d: Seq<u8>)
    requires
        holds_at(b, pos, bytes_field(d)),
        d.len() <= u64::MAX,
    ensures
        read_bytes_at(b, pos) == Some((d, pos + bytes_field(d).len())),
        bytes_field(d).len() == 8 + d.len(),
{
    lemma_u64_bytes(d.len() as u64);
    lemma_holds_split(b, pos, u64_bytes(d.len() as u64), d);
    lemma_read_u64(b, pos, d.len() as u64);
}

pub proof fn lemma_bytes_read_back(b: Seq<u8>, pos: int)
    requires
        read_bytes_at(b, pos) is Some,
    ensures
        match read_bytes_at(b, pos) {
            Some((d, p)) => holds_at(b, pos, bytes_field(d)) && p == pos + bytes_field(d).len(),
            None => true,
        },
{
    lemma_u64_read_back(b, pos);
    let (n, p) = read_u64_at(b, pos).unwrap();
    let d = b.subrange(p, p + n);
    assert(d.len() == n);
    lemma_u64_bytes(n);
    lemma_holds_join(b, pos, u64_bytes(n), d);
}

pub proof fn lemma_read_str(b: Seq<u8>, pos: int, c: Seq<char>)
    requires
        holds_at(b, pos, str_field(c)),
        encode_utf8(c).len() <= u64::MAX,
    ensures
        read_str_at(b, pos) == Some((c, pos + str_field(c).len())),
{
    lemma_read_bytes(b, pos, encode_utf8(c));
}

pub proof fn lemma_str_read_back(b: Seq<u8>, pos: int)
    requires
        read_str_at(b, pos) is Some,
    ensures
        match read_str_at(b, pos) {
            Some((c, p)) => holds_at(b, pos, str_field(c)) && p == pos + str_field(c).len(),
            None => true,
        },
{
    lemma_bytes_read_back(b, pos);
}

/// Appends a machine-sized count as a 64-bit word.
pub fn put_usize(out: &mut Vec<u8>, n: usize)
    ensures
        final(out)@ == old(out)@ + usize_field(n),
{
    put_u64(out, n as u64);
}

/// Reads a machine-sized count at `pos`.
pub fn take_usize(b: &[u8], pos: usize) -> (r: Option<(usize, usize)>)
    ensures
        at_int(r) == read_usize_at(b@, pos as int),
{
    match take_u64(b, pos) {
        Some((v, p)) => if v <= usize::MAX as u64 {
            Some((v as usize, p))
        } else {
            None
        },
        None => None,
    }
}

/// Appends the little-endian bytes of `n`.
pub fn put_u64(out: &mut Vec<u8>, n: u64)
    ensures
        final(out)@ == old(out)@ + u64_bytes(n),
{
    let bytes = u64_to_le_bytes(n);
    put_slice(out, bytes.as_slice());
}

/// Appends the little-endian bytes of `n`.
pub fn put_u32(out: &mut Vec<u8>, n: u32)
    ensures
        final(out)@ == old(out)@ + u32_bytes(n),
{
    let bytes = u32_to_le_bytes(n);
    put_slice(out, bytes.as_slice());
}

/// Appends the bytes of `src` unchanged.
pub fn put_slice(out: &mut Vec<u8>, src: &[u8])
    ensures
        final(out)@ == old(out)@ + src@,
{
    let ghost start = out@;
    let mut i: usize = 0;
    while i < src.len()
        invariant
            i <= src@.len(),
            out@ == start + src@.subrange(0, i as int),
        decreases src@.len() - i,
    {
        out.push(src[i]);
        i = i + 1;
        assert(src@.subrange(0, i as int) == src@.subrange(0, i - 1) + seq![src@[i - 1]]);
    }
    assert(src@.subrange(0, i as int) == src@);
}

/// Appends a flag byte.
pub fn put_bool(out: &mut Vec<u8>, v: bool)
    ensures
        final(out)@ == old(out)@ + bool_field(v),
{
    if v {
        out.push(1u8);
    } else {
        out.push(0u8);
    }
}

/// Appends a length-prefixed byte string.
pub fn put_bytes(out: &mut Vec<u8>, src: &[u8])
    ensures
        final(out)@ == old(out)@ + bytes_field(src@),
{
    put_u64(out, src.len() as u64);
    put_slice(out, src);
    assert(old(out)@ + u64_bytes(src@.len() as u64) + src@ == old(out)@ + bytes_field(src@));
}

/// Appends a text as its length-prefixed UTF-8 encoding.
pub fn put_str(out: &mut Vec<u8>, s: &str)
    ensures
        final(out)@ == old(out)@ + str_field(s@),
{
    put_bytes(out, s.as_bytes());
}

/// Reads a 64-bit word at `pos`.
pub fn take_u64(b: &[u8], pos: usize) -> (r: Option<(u64, usize)>)
    ensures
        at_int(r) == read_u64_at(b@, pos as int),
{
    if pos <= b.len() && b.len() - pos >= 8 {
        let word = slice_subrange(b, pos, pos + 8);
        Some((u64_from_le_bytes(word), pos + 8))
    } else {
        None
    }
}

/// Reads a 32-bit word at `pos`.
pub fn take_u32(b: &[u8], pos: usize) -> (r: Option<(u32, usize)>)
    ensures
        at_int(r) == read_u32_at(b@, pos as int),
{
    if pos <= b.len() && b.len() - pos >= 4 {
        let word = slice_subrange(b, pos, pos + 4);
        Some((u32_from_le_bytes(word), pos + 4))
    } else {
        None
    }
}

/// Reads a flag byte at `pos`.
pub fn take_bool(b: &[u8], pos: usize) -> (r: Option<(bool, usize)>)
    ensures
        at_int(r) == read_bool_at(b@, pos as int),
{
    if pos < b.len() && b[pos] <= 1 {
        Some((b[pos] == 1, pos + 1))
    } else {
        None
    }
}

/// Reads a length-prefixed byte string at `pos`.
pub fn take_bytes(b: &[u8], pos: usize) -> (r: Option<(Vec<u8>, usize)>)
    ensures
        match r {
            Some((v, p)) => read_bytes_at(b@, pos as int) == Some((v@, p as int)),
            None => read_bytes_at(b@, pos as int) is None,
        },
{
    match take_u64(b, pos) {
        Some((n, p)) => {
            if n <= (b.len() - p) as u64 {
                let end = p + n as usize;
                let v = slice_to_vec(slice_subrange(b, p, end));
                Some((v, end))
            } else {
                None
            }
        },
        None => None,
    }
}

/// Reads a text at `pos`.
pub fn take_str(b: &[u8], pos: usize) -> (r: Option<(String, usize)>)
    ensures
        match r {
            Some((s, p)) => read_str_at(b@, pos as int) == Some((s@, p as int)),
            None => read_str_at(b@, pos as int) is None,
        },
{
    match take_bytes(b, pos) {
        Some((v, p)) => match utf8_text(v.as_slice()) {
            Some(text) => {
                proof {
                    encode_utf8_decode_utf8(text@);
                }
                Some((text.to_owned(), p))
            },
            None => None,
        },
        None => None,
    }
}

/// Relies on `std::str::from_utf8`: it accepts exactly the well-formed UTF-8
/// byte strings and returns the text made of those very bytes.
#[verifier::external_body]
fn utf8_text(b: &[u8]) -> (r: Option<&str>)
    ensures
        r is Some <==> valid_utf8(b@),
        r is Some ==> r->0.spec_bytes() == b@,
{
    std::str::from_utf8(b).ok()
}

/// Frames a payload: its length as eight little-endian bytes, then the payload.
pub fn frame(payload: &[u8]) -> (r: Vec<u8>)
    ensures
        r@ == frame_of(payload@),
{
    let mut out: Vec<u8> = Vec::new();
    put_bytes(&mut out, payload);
    assert(out@ == frame_of(payload@));
    out
}

/// The payload length that a frame header announces.
pub fn frame_len(header: &[u8]) -> (r: u64)
    requires
        header@.len() == FRAME_HEADER_LEN,
    ensures
        u64_bytes(r) == header@,
{
    proof {
        lemma_auto_spec_u64_to_from_le_bytes();
    }
    u64_from_le_bytes(header)
}

/// Framing is undone by reading the header: it announces the payload's
/// length, and the payload follows it.
pub proof fn lemma_frame_parts(payload: Seq<u8>)
    requires
        payload.len() <= u64::MAX,
    ensures
        frame_of(payload).len() == FRAME_HEADER_LEN + payload.len(),
        frame_of(payload).subrange(0, 8) == u64_bytes(payload.len() as u64),
        spec_u64_from_le_bytes(frame_of(payload).subrange(0, 8)) == payload.len(),
        frame_of(payload).subrange(8, frame_of(payload).len() as int) == payload,
{
    let f = frame_of(payload);
    lemma_u64_bytes(payload.len() as u64);
    assert(f.subrange(0, 8) =~= u64_bytes(payload.len() as u64));
    assert(f.subrange(8, f.len() as int) =~= payload);
}

} // verus!
