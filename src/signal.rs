//! The control messages that two linked hosts exchange, and their wire form.

use crate::codec::{
    bool_field, holds_at, lemma_bool_read_back, lemma_holds_join, lemma_holds_split,
    lemma_read_bool, lemma_read_str, lemma_read_u32, lemma_read_usize, lemma_str_read_back,
    lemma_u32_bytes, lemma_u32_read_back, lemma_u64_bytes, lemma_usize_read_back, put_bool,
    put_str, put_u32, put_usize, read_bool_at, read_str_at, read_u32_at, read_usize_at,
    str_field, take_bool, take_str, take_u32, take_usize, u32_bytes, usize_field,
};
use crate::file::{FileBlocks, FileState, FileStateView};
use std::collections::HashSet;
use vstd::prelude::*;
use vstd::utf8::encode_utf8;

verus! {

/// What a block-set descriptor is: transfer id, block size, block count.
pub struct Descriptor {
    pub id: usize,
    pub block_size: usize,
    pub block_num: usize,
}

/// What a control message is. A block set travels as its descriptor.
pub enum SignalView {
    Accept { ip_addr: Seq<char>, name: Seq<char> },
    AddTcpStream,
    PostFile(FileStateView, Descriptor),
    Parden,
    Shut,
    ErrorInto,
}

/// A control message.
#[derive(Debug)]
pub enum TCPSignal {
    /// Handshake, keepalive and acknowledgement.
    Accept { ip_addr: String, name: String },
    /// Asks the peer to open one more connection.
    AddTcpStream,
    /// Announces an inbound transfer: the file and its block set.
    PostFile(FileState, FileBlocks),
    /// Asks the peer to send again.
    Parden,
    /// The peer is closing.
    Shut,
    /// A message that could not be decoded.
    ErrorInto,
}

impl View for TCPSignal {
    type V = SignalView;

    open spec fn view(&self) -> SignalView {
        match self {
            TCPSignal::Accept { ip_addr, name } => SignalView::Accept {
                ip_addr: ip_addr@,
                name: name@,
            },
            TCPSignal::AddTcpStream => SignalView::AddTcpStream,
            TCPSignal::PostFile(f, b) => SignalView::PostFile(
                f@,
                Descriptor { id: b.id, block_size: b.block_size, block_num: b.block_num },
            ),
            TCPSignal::Parden => SignalView::Parden,
            TCPSignal::Shut => SignalView::Shut,
            TCPSignal::ErrorInto => SignalView::ErrorInto,
        }
    }
}

/// A text that may be absent: a presence flag, then the text if present.
pub open spec fn opt_str_field(o: Option<Seq<char>>) -> Seq<u8> {
    match o {
        Some(c) => bool_field(true) + str_field(c),
        None => bool_field(false),
    }
}

/// A catalog entry on the wire, field after field.
pub open spec fn file_state_bytes(f: FileStateView) -> Seq<u8> {
    bool_field(f.is_folder) + opt_str_field(f.is_linked) + bool_field(f.is_local) + bool_field(
        f.is_synced,
    ) + str_field(f.name)
}

/// A descriptor on the wire.
pub open spec fn descriptor_bytes(d: Descriptor) -> Seq<u8> {
    usize_field(d.id) + usize_field(d.block_size) + usize_field(d.block_num)
}

/// A control message on the wire: a 32-bit tag, then the fields of its kind.
pub open spec fn signal_bytes(s: SignalView) -> Seq<u8> {
    match s {
        SignalView::Accept { ip_addr, name } => u32_bytes(0) + str_field(ip_addr) + str_field(
            name,
        ),
        SignalView::AddTcpStream => u32_bytes(1),
        SignalView::PostFile(f, d) => u32_bytes(2) + file_state_bytes(f) + descriptor_bytes(d),
        SignalView::Parden => u32_bytes(3),
        SignalView::Shut => u32_bytes(4),
        SignalView::ErrorInto => u32_bytes(5),
    }
}

/// Every text of the message is short enough for its length word.
pub open spec fn texts_fit(s: SignalView) -> bool {
    match s {
        SignalView::Accept { ip_addr, name } => encode_utf8(ip_addr).len() <= u64::MAX
            && encode_utf8(name).len() <= u64::MAX,
        SignalView::PostFile(f, d) => encode_utf8(f.name).len() <= u64::MAX && match f.is_linked {
            Some(p) => encode_utf8(p).len() <= u64::MAX,
            None => true,
        },
        _ => true,
    }
}

pub open spec fn read_opt_str_at(b: Seq<u8>, pos: int) -> Option<(Option<Seq<char>>, int)> {
    match read_bool_at(b, pos) {
        Some((present, p)) => if present {
            match read_str_at(b, p) {
                Some((c, q)) => Some((Some(c), q)),
                None => None,
            }
        } else {
            Some((None, p))
        },
        None => None,
    }
}

pub open spec fn read_file_state_at(b: Seq<u8>, pos: int) -> Option<(FileStateView, int)> {
    match read_bool_at(b, pos) {
        Some((is_folder, p1)) => match read_opt_str_at(b, p1) {
            Some((is_linked, p2)) => match read_bool_at(b, p2) {
                Some((is_local, p3)) => match read_bool_at(b, p3) {
                    Some((is_synced, p4)) => match read_str_at(b, p4) {
                        Some((name, p5)) => Some(
                            (FileStateView { is_folder, is_linked, is_local, is_synced, name }, p5),
                        ),
                        None => None,
                    },
                    None => None,
                },
                None => None,
            },
            None => None,
        },
        None => None,
    }
}

pub open spec fn read_descriptor_at(b: Seq<u8>, pos: int) -> Option<(Descriptor, int)> {
    match read_usize_at(b, pos) {
        Some((id, p1)) => match read_usize_at(b, p1) {
            Some((block_size, p2)) => match read_usize_at(b, p2) {
                Some((block_num, p3)) => Some((Descriptor { id, block_size, block_num }, p3)),
                None => None,
            },
            None => None,
        },
        None => None,
    }
}

pub open spec fn read_signal_at(b: Seq<u8>, pos: int) -> Option<(SignalView, int)> {
    match read_u32_at(b, pos) {
        Some((tag, p)) => if tag == 0 {
            match read_str_at(b, p) {
                Some((ip_addr, q)) => match read_str_at(b, q) {
                    Some((name, r)) => Some((SignalView::Accept { ip_addr, name }, r)),
                    None => None,
                },
                None => None,
            }
        } else if tag == 1 {
            Some((SignalView::AddTcpStream, p))
        } else if tag == 2 {
            match read_file_state_at(b, p) {
                Some((f, q)) => match read_descriptor_at(b, q) {
                    Some((d, r)) => Some((SignalView::PostFile(f, d), r)),
                    None => None,
                },
                None => None,
            }
        } else if tag == 3 {
            Some((SignalView::Parden, p))
        } else if tag == 4 {
            Some((SignalView::Shut, p))
        } else if tag == 5 {
            Some((SignalView::ErrorInto, p))
        } else {
            None
        },
        None => None,
    }
}

/// The message that `b` holds: exactly one encoded message, else the
/// fallback `ErrorInto`.
pub open spec fn parse_signal(b: Seq<u8>) -> SignalView {
    match read_signal_at(b, 0) {
        Some((s, p)) => if p == b.len() {
            s
        } else {
            SignalView::ErrorInto
        },
        None => SignalView::ErrorInto,
    }
}

proof fn lemma_read_opt_str(b: Seq<u8>, pos: int, o: Option<Seq<char>>)
    requires
        holds_at(b, pos, opt_str_field(o)),
        o is Some ==> encode_utf8(o->0).len() <= u64::MAX,
    ensures
        read_opt_str_at(b, pos) == Some((o, pos + opt_str_field(o).len())),
{
    match o {
        Some(c) => {
            lemma_holds_split(b, pos, bool_field(true), str_field(c));
            lemma_read_bool(b, pos, true);
            lemma_read_str(b, pos + 1, c);
        },
        None => {
            lemma_read_bool(b, pos, false);
        },
    }
}

proof fn lemma_opt_str_read_back(b: Seq<u8>, pos: int)
    requires
        read_opt_str_at(b, pos) is Some,
    ensures
        match read_opt_str_at(b, pos) {
            Some((o, p)) => holds_at(b, pos, opt_str_field(o)) && p == pos + opt_str_field(o).len(),
            None => true,
        },
{
    lemma_bool_read_back(b, pos);
    let (present, p) = read_bool_at(b, pos).unwrap();
    if present {
        lemma_str_read_back(b, p);
        let (c, q) = read_str_at(b, p).unwrap();
        lemma_holds_join(b, pos, bool_field(true), str_field(c));
    }
}

proof fn lemma_read_file_state(b: Seq<u8>, pos: int, f: FileStateView)
    requires
        holds_at(b, pos, file_state_bytes(f)),
        encode_utf8(f.name).len() <= u64::MAX,
        f.is_linked is Some ==> encode_utf8(f.is_linked->0).len() <= u64::MAX,
    ensures
        read_file_state_at(b, pos) == Some((f, pos + file_state_bytes(f).len())),
{
    let a = bool_field(f.is_folder);
    let l = opt_str_field(f.is_linked);
    let c = bool_field(f.is_local);
    let d = bool_field(f.is_synced);
    let e = str_field(f.name);
    lemma_holds_split(b, pos, a + l + c + d, e);
    lemma_holds_split(b, pos, a + l + c, d);
    lemma_holds_split(b, pos, a + l, c);
    lemma_holds_split(b, pos, a, l);
    lemma_read_bool(b, pos, f.is_folder);
    lemma_read_opt_str(b, pos + 1, f.is_linked);
    lemma_read_bool(b, pos + 1 + l.len(), f.is_local);
    lemma_read_bool(b, pos + 2 + l.len(), f.is_synced);
    lemma_read_str(b, pos + 3 + l.len(), f.name);
}

proof fn lemma_file_state_read_back(b: Seq<u8>, pos: int)
    requires
        read_file_state_at(b, pos) is Some,
    ensures
        match read_file_state_at(b, pos) {
            Some((f, p)) => holds_at(b, pos, file_state_bytes(f)) && p == pos + file_state_bytes(
                f,
            ).len(),
            None => true,
        },
{
    lemma_bool_read_back(b, pos);
    let (is_folder, p1) = read_bool_at(b, pos).unwrap();
    lemma_opt_str_read_back(b, p1);
    let (is_linked, p2) = read_opt_str_at(b, p1).unwrap();
    lemma_bool_read_back(b, p2);
    let (is_local, p3) = read_bool_at(b, p2).unwrap();
    lemma_bool_read_back(b, p3);
    let (is_synced, p4) = read_bool_at(b, p3).unwrap();
    lemma_str_read_back(b, p4);
    let (name, p5) = read_str_at(b, p4).unwrap();
    let a = bool_field(is_folder);
    let l = opt_str_field(is_linked);
    let c = bool_field(is_local);
    let d = bool_field(is_synced);
    let e = str_field(name);
    lemma_holds_join(b, pos, a, l);
    lemma_holds_join(b, pos, a + l, c);
    lemma_holds_join(b, pos, a + l + c, d);
    lemma_holds_join(b, pos, a + l + c + d, e);
}

proof fn lemma_read_descriptor(b: Seq<u8>, pos: int, d: Descriptor)
    requires
        holds_at(b, pos, descriptor_bytes(d)),
    ensures
        read_descriptor_at(b, pos) == Some((d, pos + 24)),
        descriptor_bytes(d).len() == 24,
{
    let x = usize_field(d.id);
    let y = usize_field(d.block_size);
    let z = usize_field(d.block_num);
    lemma_u64_bytes(d.id as u64);
    lemma_u64_bytes(d.block_size as u64);
    lemma_u64_bytes(d.block_num as u64);
    lemma_holds_split(b, pos, x + y, z);
    lemma_holds_split(b, pos, x, y);
    lemma_read_usize(b, pos, d.id);
    lemma_read_usize(b, pos + 8, d.block_size);
    lemma_read_usize(b, pos + 16, d.block_num);
}

proof fn lemma_descriptor_read_back(b: Seq<u8>, pos: int)
    requires
        read_descriptor_at(b, pos) is Some,
    ensures
        match read_descriptor_at(b, pos) {
            Some((d, p)) => holds_at(b, pos, descriptor_bytes(d)) && p == pos + descriptor_bytes(
                d,
            ).len(),
            None => true,
        },
{
    lemma_usize_read_back(b, pos);
    let (id, p1) = read_usize_at(b, pos).unwrap();
    lemma_usize_read_back(b, p1);
    let (block_size, p2) = read_usize_at(b, p1).unwrap();
    lemma_usize_read_back(b, p2);
    let (block_num, p3) = read_usize_at(b, p2).unwrap();
    lemma_u64_bytes(id as u64);
    lemma_u64_bytes(block_size as u64);
    lemma_u64_bytes(block_num as u64);
    lemma_holds_join(b, pos, usize_field(id), usize_field(block_size));
    lemma_holds_join(b, pos, usize_field(id) + usize_field(block_size), usize_field(block_num));
}

proof fn lemma_read_signal(b: Seq<u8>, pos: int, s: SignalView)
    requires
        holds_at(b, pos, signal_bytes(s)),
        texts_fit(s),
    ensures
        read_signal_at(b, pos) == Some((s, pos + signal_bytes(s).len())),
{
    match s {
        SignalView::Accept { ip_addr, name } => {
            lemma_u32_bytes(0);
            lemma_holds_split(b, pos, u32_bytes(0) + str_field(ip_addr), str_field(name));
            lemma_holds_split(b, pos, u32_bytes(0), str_field(ip_addr));
            lemma_read_u32(b, pos, 0);
            lemma_read_str(b, pos + 4, ip_addr);
            lemma_read_str(b, pos + 4 + str_field(ip_addr).len(), name);
        },
        SignalView::PostFile(f, d) => {
            lemma_u32_bytes(2);
            lemma_holds_split(b, pos, u32_bytes(2) + file_state_bytes(f), descriptor_bytes(d));
            lemma_holds_split(b, pos, u32_bytes(2), file_state_bytes(f));
            lemma_read_u32(b, pos, 2);
            lemma_read_file_state(b, pos + 4, f);
            lemma_read_descriptor(b, pos + 4 + file_state_bytes(f).len(), d);
        },
        SignalView::AddTcpStream => {
            lemma_read_u32(b, pos, 1);
            lemma_u32_bytes(1);
        },
        SignalView::Parden => {
            lemma_read_u32(b, pos, 3);
            lemma_u32_bytes(3);
        },
        SignalView::Shut => {
            lemma_read_u32(b, pos, 4);
            lemma_u32_bytes(4);
        },
        SignalView::ErrorInto => {
            lemma_read_u32(b, pos, 5);
            lemma_u32_bytes(5);
        },
    }
}

proof fn lemma_signal_read_back(b: Seq<u8>, pos: int)
    requires
        read_signal_at(b, pos) is Some,
    ensures
        match read_signal_at(b, pos) {
            Some((s, p)) => holds_at(b, pos, signal_bytes(s)) && p == pos + signal_bytes(s).len(),
            None => true,
        },
{
    lemma_u32_read_back(b, pos);
    let (tag, p) = read_u32_at(b, pos).unwrap();
    lemma_u32_bytes(tag);
    if tag == 0 {
        lemma_str_read_back(b, p);
        let (ip_addr, q) = read_str_at(b, p).unwrap();
        lemma_str_read_back(b, q);
        let (name, r) = read_str_at(b, q).unwrap();
        lemma_holds_join(b, pos, u32_bytes(0), str_field(ip_addr));
        lemma_holds_join(b, pos, u32_bytes(0) + str_field(ip_addr), str_field(name));
    } else if tag == 2 {
        lemma_file_state_read_back(b, p);
        let (f, q) = read_file_state_at(b, p).unwrap();
        lemma_descriptor_read_back(b, q);
        let (d, r) = read_descriptor_at(b, q).unwrap();
        lemma_holds_join(b, pos, u32_bytes(2), file_state_bytes(f));
        lemma_holds_join(b, pos, u32_bytes(2) + file_state_bytes(f), descriptor_bytes(d));
    }
}

/// Decoding undoes encoding, for every kind of message, empty texts
/// included.
pub proof fn lemma_signal_round_trip(s: SignalView)
    requires
        texts_fit(s),
    ensures
        parse_signal(signal_bytes(s)) == s,
{
    let b = signal_bytes(s);
    assert(b.subrange(0, b.len() as int) =~= b);
    lemma_read_signal(b, 0, s);
}

/// Decoding never fails: bytes that are not exactly the encoding of some
/// message decode to the fallback `ErrorInto`.
pub proof fn lemma_garbage_is_error(b: Seq<u8>)
    ensures
        parse_signal(b) == SignalView::ErrorInto || signal_bytes(parse_signal(b)) == b,
        (forall|s: SignalView| #[trigger] signal_bytes(s) != b) ==> parse_signal(b)
            == SignalView::ErrorInto,
{
    if read_signal_at(b, 0) is Some {
        lemma_signal_read_back(b, 0);
        let (s, p) = read_signal_at(b, 0).unwrap();
        if p == b.len() {
            assert(b.subrange(0, b.len() as int) =~= b);
            assert(signal_bytes(s) == b);
        }
    }
}

fn put_file_state(out: &mut Vec<u8>, f: &FileState)
    ensures
        final(out)@ == old(out)@ + file_state_bytes(f@),
{
    put_bool(out, f.is_folder);
    match &f.is_linked {
        Some(p) => {
            put_bool(out, true);
            put_str(out, p.as_str());
        },
        None => {
            put_bool(out, false);
        },
    }
    put_bool(out, f.is_local);
    put_bool(out, f.is_synced);
    put_str(out, f.name.as_str());
    assert(final(out)@ =~= old(out)@ + file_state_bytes(f@));
}

fn take_opt_str(b: &[u8], pos: usize) -> (r: Option<(Option<String>, usize)>)
    ensures
        match r {
            Some((o, p)) => read_opt_str_at(b@, pos as int) == Some(
                (
                    match o {
                        Some(t) => Some(t@),
                        None => None,
                    },
                    p as int,
                ),
            ),
            None => read_opt_str_at(b@, pos as int) is None,
        },
{
    match take_bool(b, pos) {
        Some((true, p)) => match take_str(b, p) {
            Some((t, q)) => Some((Some(t), q)),
            None => None,
        },
        Some((false, p)) => Some((None, p)),
        None => None,
    }
}

fn take_file_state(b: &[u8], pos: usize) -> (r: Option<(FileState, usize)>)
    ensures
        match r {
            Some((f, p)) => read_file_state_at(b@, pos as int) == Some((f@, p as int)),
            None => read_file_state_at(b@, pos as int) is None,
        },
{
    let (is_folder, p1) = match take_bool(b, pos) {
        Some(v) => v,
        None => return None,
    };
    let (is_linked, p2) = match take_opt_str(b, p1) {
        Some(v) => v,
        None => return None,
    };
    let (is_local, p3) = match take_bool(b, p2) {
        Some(v) => v,
        None => return None,
    };
    let (is_synced, p4) = match take_bool(b, p3) {
        Some(v) => v,
        None => return None,
    };
    let (name, p5) = match take_str(b, p4) {
        Some(v) => v,
        None => return None,
    };
    Some((FileState { is_folder, is_linked, is_local, is_synced, name }, p5))
}

fn take_descriptor(b: &[u8], pos: usize) -> (r: Option<(FileBlocks, usize)>)
    ensures
        match r {
            Some((f, p)) => read_descriptor_at(b@, pos as int) == Some(
                (
                    Descriptor { id: f.id, block_size: f.block_size, block_num: f.block_num },
                    p as int,
                ),
            ),
            None => read_descriptor_at(b@, pos as int) is None,
        },
{
    let (id, p1) = match take_usize(b, pos) {
        Some(v) => v,
        None => return None,
    };
    let (block_size, p2) = match take_usize(b, p1) {
        Some(v) => v,
        None => return None,
    };
    let (block_num, p3) = match take_usize(b, p2) {
        Some(v) => v,
        None => return None,
    };
    Some(
        (
            FileBlocks {
                id,
                block_size,
                block_num,
                blocks: Vec::new(),
                remaining: HashSet::new(),
            },
            p3,
        ),
    )
}

impl TCPSignal {
    /// The plain acknowledgement: an `Accept` with empty texts.
    pub fn ac() -> (r: TCPSignal)
        ensures
            r@ == (SignalView::Accept { ip_addr: Seq::empty(), name: Seq::empty() }),
    {
        TCPSignal::Accept { ip_addr: String::new(), name: String::new() }
    }

    /// True for an `Accept`, the affirmative reply.
    pub fn is_ok(&self) -> (r: bool)
        ensures
            r == self@ is Accept,
    {
        match self {
            TCPSignal::Accept { .. } => true,
            _ => false,
        }
    }

    /// The wire form of the message.
    pub fn to_bytes(&self) -> (r: Vec<u8>)
        ensures
            r@ == signal_bytes(self@),
    {
        let mut out: Vec<u8> = Vec::new();
        match self {
            TCPSignal::Accept { ip_addr, name } => {
                put_u32(&mut out, 0);
                put_str(&mut out, ip_addr.as_str());
                put_str(&mut out, name.as_str());
            },
            TCPSignal::AddTcpStream => put_u32(&mut out, 1),
            TCPSignal::PostFile(f, blocks) => {
                put_u32(&mut out, 2);
                put_file_state(&mut out, f);
                put_usize(&mut out, blocks.id);
                put_usize(&mut out, blocks.block_size);
                put_usize(&mut out, blocks.block_num);
            },
            TCPSignal::Parden => put_u32(&mut out, 3),
            TCPSignal::Shut => put_u32(&mut out, 4),
            TCPSignal::ErrorInto => put_u32(&mut out, 5),
        }
        assert(out@ =~= signal_bytes(self@));
        out
    }

    /// The message that `b` holds; anything that is not exactly one encoded
    /// message gives `ErrorInto`.
    pub fn from_bytes(b: &[u8]) -> (r: TCPSignal)
        ensures
            r@ == parse_signal(b@),
    {
        match TCPSignal::take(b) {
            Some((s, p)) => if p == b.len() {
                s
            } else {
                TCPSignal::ErrorInto
            },
            None => TCPSignal::ErrorInto,
        }
    }

    fn take(b: &[u8]) -> (r: Option<(TCPSignal, usize)>)
        ensures
            match r {
                Some((s, p)) => read_signal_at(b@, 0) == Some((s@, p as int)),
                None => read_signal_at(b@, 0) is None,
            },
    {
        let (tag, p) = match take_u32(b, 0) {
            Some(v) => v,
            None => return None,
        };
        if tag == 0 {
            let (ip_addr, q) = match take_str(b, p) {
                Some(v) => v,
                None => return None,
            };
            let (name, r) = match take_str(b, q) {
                Some(v) => v,
                None => return None,
            };
            Some((TCPSignal::Accept { ip_addr, name }, r))
        } else if tag == 1 {
            Some((TCPSignal::AddTcpStream, p))
        } else if tag == 2 {
            let (f, q) = match take_file_state(b, p) {
                Some(v) => v,
                None => return None,
            };
            let (d, r) = match take_descriptor(b, q) {
                Some(v) => v,
                None => return None,
            };
            Some((TCPSignal::PostFile(f, d), r))
        } else if tag == 3 {
            Some((TCPSignal::Parden, p))
        } else if tag == 4 {
            Some((TCPSignal::Shut, p))
        } else if tag == 5 {
            Some((TCPSignal::ErrorInto, p))
        } else {
            None
        }
    }
}

} // verus!
