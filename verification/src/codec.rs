//! The wire form of value trees.
//!
//! An atom is written as a length header followed by its bytes: the
//! empty atom is `0x80`, a single byte under `0x80` stands for itself,
//! and longer atoms get a header whose leading ones give the header
//! width.  A pair is `0xff` followed by the two sides.  Parsing accepts
//! exactly the canonical form the writer produces, so writing and
//! reading are inverses.

use vstd::prelude::*;

use crate::node::Node;
use crate::node::NodeV;

verus! {

/// The header bytes that precede an atom's contents.
pub open spec fn atom_header(b: Seq<u8>) -> Seq<u8> {
    let n = b.len();
    if n == 0 {
        seq![0x80u8]
    } else if n == 1 && b[0] < 0x80 {
        seq![]
    } else if n < 0x40 {
        seq![(0x80 + n) as u8]
    } else if n < 0x2000 {
        seq![(0xc0 + n / 0x100) as u8, (n % 0x100) as u8]
    } else if n < 0x10_0000 {
        seq![(0xe0 + n / 0x1_0000) as u8, ((n / 0x100) % 0x100) as u8, (n % 0x100) as u8]
    } else if n < 0x800_0000 {
        seq![
            (0xf0 + n / 0x100_0000) as u8,
            ((n / 0x1_0000) % 0x100) as u8,
            ((n / 0x100) % 0x100) as u8,
            (n % 0x100) as u8,
        ]
    } else if n < 0x4_0000_0000 {
        seq![
            (0xf8 + n / 0x1_0000_0000) as u8,
            ((n / 0x100_0000) % 0x100) as u8,
            ((n / 0x1_0000) % 0x100) as u8,
            ((n / 0x100) % 0x100) as u8,
            (n % 0x100) as u8,
        ]
    } else {
        seq![]
    }
}

/// Whether a tree fits the wire form: every atom is shorter than 2^34.
pub open spec fn serializable(n: NodeV) -> bool
    decreases n,
{
    match n {
        NodeV::Atom(b) => b.len() < 0x4_0000_0000,
        NodeV::Pair(l, r) => serializable(*l) && serializable(*r),
    }
}

/// The canonical wire form of a tree.
pub open spec fn ser(n: NodeV) -> Seq<u8>
    decreases n,
{
    match n {
        NodeV::Atom(b) => atom_header(b) + b,
        NodeV::Pair(l, r) => seq![0xffu8] + ser(*l) + ser(*r),
    }
}

/// Reads one atom starting at `pos`; `b[pos]` is its first header byte
/// (not `0xff`).  Returns the contents and the position after them.
/// Rejects headers that the writer would never produce.
pub open spec fn parse_atom_at(b: Seq<u8>, pos: int) -> Option<(Seq<u8>, int)>
    recommends
        0 <= pos < b.len(),
{
    let h = b[pos];
    if h <= 0x7f {
        Some((seq![h], pos + 1))
    } else if h == 0x80 {
        Some((Seq::empty(), pos + 1))
    } else if h < 0xc0 {
        let size = h - 0x80;
        if pos + 1 + size <= b.len() {
            if size == 1 && b[pos + 1] < 0x80 {
                None
            } else {
                Some((b.subrange(pos + 1, pos + 1 + size), pos + 1 + size))
            }
        } else {
            None
        }
    } else if h < 0xe0 {
        if pos + 2 <= b.len() {
            let size = (h - 0xc0) * 0x100 + b[pos + 1];
            if size >= 0x40 && pos + 2 + size <= b.len() {
                Some((b.subrange(pos + 2, pos + 2 + size), pos + 2 + size))
            } else {
                None
            }
        } else {
            None
        }
    } else if h < 0xf0 {
        if pos + 3 <= b.len() {
            let size = (h - 0xe0) * 0x1_0000 + b[pos + 1] * 0x100 + b[pos + 2];
            if size >= 0x2000 && pos + 3 + size <= b.len() {
                Some((b.subrange(pos + 3, pos + 3 + size), pos + 3 + size))
            } else {
                None
            }
        } else {
            None
        }
    } else if h < 0xf8 {
        if pos + 4 <= b.len() {
            let size = (h - 0xf0) * 0x100_0000 + b[pos + 1] * 0x1_0000 + b[pos + 2] * 0x100 + b[pos
                + 3];
            if size >= 0x10_0000 && pos + 4 + size <= b.len() {
                Some((b.subrange(pos + 4, pos + 4 + size), pos + 4 + size))
            } else {
                None
            }
        } else {
            None
        }
    } else if h < 0xfc {
        if pos + 5 <= b.len() {
            let size = (h - 0xf8) * 0x1_0000_0000 + b[pos + 1] * 0x100_0000 + b[pos + 2] * 0x1_0000
                + b[pos + 3] * 0x100 + b[pos + 4];
            if size >= 0x800_0000 && pos + 5 + size <= b.len() {
                Some((b.subrange(pos + 5, pos + 5 + size), pos + 5 + size))
            } else {
                None
            }
        } else {
            None
        }
    } else {
        None
    }
}

/// Reads one tree starting at `pos`.  Returns the tree and the position
/// after it.
pub open spec fn parse(b: Seq<u8>, pos: int) -> Option<(NodeV, int)>
    decreases b.len() - pos,
{
    if pos < 0 || pos >= b.len() {
        None
    } else if b[pos] == 0xff {
        match parse(b, pos + 1) {
            Some((l, mid)) => if pos + 1 < mid <= b.len() {
                match parse(b, mid) {
                    Some((r, end)) => Some((NodeV::cons(l, r), end)),
                    None => None,
                }
            } else {
                None
            },
            None => None,
        }
    } else {
        match parse_atom_at(b, pos) {
            Some((bytes, end)) => Some((NodeV::Atom(bytes), end)),
            None => None,
        }
    }
}

/// Splits knowledge of a slice's contents into its two halves.
proof fn lemma_slice_parts(b: Seq<u8>, pos: int, x: Seq<u8>, y: Seq<u8>)
    requires
        0 <= pos,
        pos + x.len() + y.len() <= b.len(),
        b.subrange(pos, pos + x.len() + y.len()) == x + y,
    ensures
        b.subrange(pos, pos + x.len()) =~= x,
        b.subrange(pos + x.len(), pos + x.len() + y.len()) =~= y,
{
    let whole = b.subrange(pos, pos + x.len() + y.len());
    assert forall|i: int| 0 <= i < x.len() implies b.subrange(pos, pos + x.len())[i] == x[i] by {
        assert(whole[i] == (x + y)[i]);
    }
    assert forall|i: int|
        0 <= i < y.len() implies b.subrange(pos + x.len(), pos + x.len() + y.len())[i] == y[i] by {
        assert(whole[x.len() + i] == (x + y)[x.len() + i]);
    }
}

/// The wire form is never empty.
pub proof fn lemma_ser_len_pos(n: NodeV)
    ensures
        ser(n).len() >= 1,
    decreases n,
{
    match n {
        NodeV::Atom(_) => {},
        NodeV::Pair(l, r) => {
            lemma_ser_len_pos(*l);
        },
    }
}

/// Whatever parsing accepts is the canonical wire form of what it
/// returns: the consumed bytes re-serialize to the same tree.
pub proof fn lemma_parse_sound(b: Seq<u8>, pos: int)
    ensures
        match parse(b, pos) {
            Some((n, end)) => pos < end <= b.len() && serializable(n) && ser(n) =~= b.subrange(
                pos,
                end,
            ),
            None => true,
        },
    decreases b.len() - pos,
{
    if 0 <= pos < b.len() {
        if b[pos] == 0xff {
            lemma_parse_sound(b, pos + 1);
            if let Some((l, mid)) = parse(b, pos + 1) {
                if pos + 1 < mid <= b.len() {
                    lemma_parse_sound(b, mid);
                    if let Some((r, end)) = parse(b, mid) {
                        assert(ser(NodeV::cons(l, r)) == seq![0xffu8] + ser(l) + ser(r));
                        assert(ser(NodeV::cons(l, r)) =~= b.subrange(pos, end));
                    }
                }
            }
        } else {
            lemma_atom_header_inverts(b, pos);
        }
    }
}

/// In the atom case, the parsed header plus contents re-serialize to
/// the consumed bytes.
proof fn lemma_atom_header_inverts(b: Seq<u8>, pos: int)
    requires
        0 <= pos < b.len(),
        b[pos] != 0xff,
    ensures
        match parse_atom_at(b, pos) {
            Some((bytes, end)) => pos < end <= b.len() && bytes.len() < 0x4_0000_0000
                && atom_header(bytes) + bytes =~= b.subrange(pos, end),
            None => true,
        },
{
    let h = b[pos];
    let (bytes, end) = match parse_atom_at(b, pos) {
        Some(p) => p,
        None => (seq![0u8], pos),
    };
    if parse_atom_at(b, pos) is None {
    } else if h <= 0x7f {
        assert(atom_header(bytes) + bytes =~= b.subrange(pos, end));
    } else if h == 0x80 {
        assert(atom_header(bytes) + bytes =~= b.subrange(pos, end));
    } else if h < 0xc0 {
        let size = h - 0x80;
        assert(bytes.len() == size);
        assert(atom_header(bytes) + bytes =~= b.subrange(pos, end));
    } else if h < 0xe0 {
        let size = (h - 0xc0) * 0x100 + b[pos + 1];
        assert(bytes.len() == size);
        assert(size / 0x100 == h - 0xc0 && size % 0x100 == b[pos + 1]) by (nonlinear_arith)
            requires
                size == (h - 0xc0) * 0x100 + b[pos + 1],
                0 <= b[pos + 1] < 0x100,
                0xc0 <= h < 0xe0,
        ;
        assert(size < 0x2000);
        assert(atom_header(bytes) + bytes =~= b.subrange(pos, end));
    } else if h < 0xf0 {
        let size = (h - 0xe0) * 0x1_0000 + b[pos + 1] * 0x100 + b[pos + 2];
        assert(bytes.len() == size);
        assert(size / 0x1_0000 == h - 0xe0 && (size / 0x100) % 0x100 == b[pos + 1] && size % 0x100
            == b[pos + 2]) by (nonlinear_arith)
            requires
                size == (h - 0xe0) * 0x1_0000 + b[pos + 1] * 0x100 + b[pos + 2],
                0 <= b[pos + 1] < 0x100,
                0 <= b[pos + 2] < 0x100,
                0xe0 <= h < 0xf0,
        ;
        assert(size < 0x10_0000);
        assert(atom_header(bytes) + bytes =~= b.subrange(pos, end));
    } else if h < 0xf8 {
        let size = (h - 0xf0) * 0x100_0000 + b[pos + 1] * 0x1_0000 + b[pos + 2] * 0x100 + b[pos
            + 3];
        assert(bytes.len() == size);
        assert(size / 0x100_0000 == h - 0xf0 && (size / 0x1_0000) % 0x100 == b[pos + 1] && (size
            / 0x100) % 0x100 == b[pos + 2] && size % 0x100 == b[pos + 3]) by (nonlinear_arith)
            requires
                size == (h - 0xf0) * 0x100_0000 + b[pos + 1] * 0x1_0000 + b[pos + 2] * 0x100
                    + b[pos + 3],
                0 <= b[pos + 1] < 0x100,
                0 <= b[pos + 2] < 0x100,
                0 <= b[pos + 3] < 0x100,
                0xf0 <= h < 0xf8,
        ;
        assert(size < 0x800_0000);
        assert(atom_header(bytes) + bytes =~= b.subrange(pos, end));
    } else {
        let size = (h - 0xf8) * 0x1_0000_0000 + b[pos + 1] * 0x100_0000 + b[pos + 2] * 0x1_0000
            + b[pos + 3] * 0x100 + b[pos + 4];
        assert(bytes.len() == size);
        assert(size / 0x1_0000_0000 == h - 0xf8 && (size / 0x100_0000) % 0x100 == b[pos + 1] && (
        size / 0x1_0000) % 0x100 == b[pos + 2] && (size / 0x100) % 0x100 == b[pos + 3] && size
            % 0x100 == b[pos + 4]) by (nonlinear_arith)
            requires
                size == (h - 0xf8) * 0x1_0000_0000 + b[pos + 1] * 0x100_0000 + b[pos + 2] * 0x1_0000
                    + b[pos + 3] * 0x100 + b[pos + 4],
                0 <= b[pos + 1] < 0x100,
                0 <= b[pos + 2] < 0x100,
                0 <= b[pos + 3] < 0x100,
                0 <= b[pos + 4] < 0x100,
                0xf8 <= h < 0xfc,
        ;
        assert(size < 0x4_0000_0000);
        assert(atom_header(bytes) + bytes =~= b.subrange(pos, end));
    }
}

/// Parsing inverts writing: at any position where the canonical wire
/// form of a tree sits, parsing returns that tree and stops right
/// after it.
pub proof fn lemma_parse_ser(n: NodeV, b: Seq<u8>, pos: int)
    requires
        serializable(n),
        0 <= pos,
        pos + ser(n).len() <= b.len(),
        b.subrange(pos, pos + ser(n).len()) == ser(n),
    ensures
        parse(b, pos) == Some((n, pos + ser(n).len())),
    decreases n,
{
    lemma_ser_len_pos(n);
    match n {
        NodeV::Atom(bytes) => {
            lemma_parse_atom_of_header(bytes, b, pos);
        },
        NodeV::Pair(l, r) => {
            let sl = ser(*l);
            let sr = ser(*r);
            lemma_ser_len_pos(*l);
            lemma_ser_len_pos(*r);
            assert(ser(n) =~= seq![0xffu8] + (sl + sr));
            lemma_slice_parts(b, pos, seq![0xffu8], sl + sr);
            assert(b[pos] == 0xff) by {
                assert(b.subrange(pos, pos + 1)[0] == b[pos]);
            }
            lemma_slice_parts(b, pos + 1, sl, sr);
            lemma_parse_ser(*l, b, pos + 1);
            let mid = pos + 1 + sl.len();
            lemma_parse_ser(*r, b, mid);
        },
    }
}

/// The atom case of `lemma_parse_ser`.
proof fn lemma_parse_atom_of_header(bytes: Seq<u8>, b: Seq<u8>, pos: int)
    requires
        bytes.len() < 0x4_0000_0000,
        0 <= pos,
        pos + atom_header(bytes).len() + bytes.len() <= b.len(),
        b.subrange(pos, pos + atom_header(bytes).len() + bytes.len()) == atom_header(bytes) + bytes,
    ensures
        parse(b, pos) == Some(
            (NodeV::Atom(bytes), pos + atom_header(bytes).len() + bytes.len()),
        ),
{
    let n = bytes.len() as int;
    let hdr = atom_header(bytes);
    let hl = hdr.len() as int;
    let end = pos + hl + n;
    lemma_slice_parts(b, pos, hdr, bytes);
    assert(b.subrange(pos + hl, end) =~= bytes);
    let sub = b.subrange(pos, pos + hl);
    assert({
        &&& hl >= 1 ==> b[pos] == hdr[0]
        &&& hl >= 2 ==> b[pos + 1] == hdr[1]
        &&& hl >= 3 ==> b[pos + 2] == hdr[2]
        &&& hl >= 4 ==> b[pos + 3] == hdr[3]
        &&& hl >= 5 ==> b[pos + 4] == hdr[4]
    }) by {
        if hl >= 1 {
            assert(sub[0] == b[pos + 0]);
        }
        if hl >= 2 {
            assert(sub[1] == b[pos + 1]);
        }
        if hl >= 3 {
            assert(sub[2] == b[pos + 2]);
        }
        if hl >= 4 {
            assert(sub[3] == b[pos + 3]);
        }
        if hl >= 5 {
            assert(sub[4] == b[pos + 4]);
        }
    }
    if n == 1 && bytes[0] < 0x80 {
        assert(b.subrange(pos, pos + 1)[0] == b[pos]);
        assert(b[pos] == bytes[0]);
        assert(seq![b[pos]] =~= bytes);
        assert(parse_atom_at(b, pos) == Some((bytes, end)));
    } else if n == 0 {
        assert(b[pos] == 0x80);
        assert(b.subrange(pos + 1, pos + 1) =~= bytes);
        assert(parse_atom_at(b, pos) == Some((bytes, end)));
    } else if n < 0x40 {
        assert(b[pos] == 0x80 + n);
        if n == 1 {
            assert(b.subrange(pos + 1, end)[0] == b[pos + 1]);
            assert(b[pos + 1] == bytes[0] >= 0x80);
        }
        assert(parse_atom_at(b, pos) == Some((bytes, end)));
    } else if n < 0x2000 {
        assert(n / 0x100 < 0x20);
        assert(b[pos] == 0xc0 + n / 0x100 && b[pos + 1] == n % 0x100);
        assert((n / 0x100) * 0x100 + n % 0x100 == n);
        assert(parse_atom_at(b, pos) == Some((bytes, end)));
    } else if n < 0x10_0000 {
        assert(n / 0x1_0000 < 0x10);
        assert(b[pos] == 0xe0 + n / 0x1_0000 && b[pos + 1] == (n / 0x100) % 0x100 && b[pos + 2] == n
            % 0x100);
        assert((n / 0x1_0000) * 0x1_0000 + ((n / 0x100) % 0x100) * 0x100 + n % 0x100 == n)
            by (nonlinear_arith)
            requires
                0x2000 <= n < 0x10_0000,
        ;
        assert(parse_atom_at(b, pos) == Some((bytes, end)));
    } else if n < 0x800_0000 {
        assert(n / 0x100_0000 < 0x8);
        assert(b[pos] == 0xf0 + n / 0x100_0000 && b[pos + 1] == (n / 0x1_0000) % 0x100 && b[pos + 2]
            == (n / 0x100) % 0x100 && b[pos + 3] == n % 0x100);
        assert((n / 0x100_0000) * 0x100_0000 + ((n / 0x1_0000) % 0x100) * 0x1_0000 + ((n / 0x100)
            % 0x100) * 0x100 + n % 0x100 == n) by (nonlinear_arith)
            requires
                0x10_0000 <= n < 0x800_0000,
        ;
        assert(parse_atom_at(b, pos) == Some((bytes, end)));
    } else {
        assert(n / 0x1_0000_0000 < 0x4);
        assert(b[pos] == 0xf8 + n / 0x1_0000_0000 && b[pos + 1] == (n / 0x100_0000) % 0x100 && b[pos
            + 2] == (n / 0x1_0000) % 0x100 && b[pos + 3] == (n / 0x100) % 0x100 && b[pos + 4] == n
            % 0x100);
        assert((n / 0x1_0000_0000) * 0x1_0000_0000 + ((n / 0x100_0000) % 0x100) * 0x100_0000 + ((n
            / 0x1_0000) % 0x100) * 0x1_0000 + ((n / 0x100) % 0x100) * 0x100 + n % 0x100 == n)
            by (nonlinear_arith)
            requires
                0x800_0000 <= n < 0x4_0000_0000,
        ;
        assert(parse_atom_at(b, pos) == Some((bytes, end)));
    }
}

/// The tree a whole byte string denotes: parsing must consume it all.
pub open spec fn deser(b: Seq<u8>) -> Option<NodeV> {
    match parse(b, 0) {
        Some((n, end)) => if end == b.len() {
            Some(n)
        } else {
            None
        },
        None => None,
    }
}

/// Reading back the canonical wire form of a tree yields the tree.
pub proof fn lemma_ser_deser_roundtrip(n: NodeV)
    requires
        serializable(n),
    ensures
        deser(ser(n)) == Some(n),
{
    assert(ser(n).subrange(0, ser(n).len() as int) =~= ser(n));
    lemma_parse_ser(n, ser(n), 0);
}

/// Whatever a whole byte string parses to writes back to that string.
pub proof fn lemma_deser_ser_roundtrip(b: Seq<u8>)
    ensures
        match deser(b) {
            Some(n) => serializable(n) && ser(n) == b,
            None => true,
        },
{
    lemma_parse_sound(b, 0);
    if let Some(n) = deser(b) {
        assert(b.subrange(0, b.len() as int) =~= b);
    }
}

fn ser_into(n: &Node, out: &mut Vec<u8>) -> (ok: bool)
    ensures
        ok == serializable(n@),
        ok ==> final(out)@ == old(out)@ + ser(n@),
    decreases n,
{
    match n {
        Node::Atom(b) => {
            let len = b.len();
            if len == 0 {
                out.push(0x80);
            } else if len == 1 && b[0] < 0x80 {
            } else if len < 0x40 {
                out.push(0x80 + len as u8);
            } else if len < 0x2000 {
                out.push(0xc0 + (len / 0x100) as u8);
                out.push((len % 0x100) as u8);
            } else if len < 0x10_0000 {
                out.push(0xe0 + (len / 0x1_0000) as u8);
                out.push(((len / 0x100) % 0x100) as u8);
                out.push((len % 0x100) as u8);
            } else if len < 0x800_0000 {
                out.push(0xf0 + (len / 0x100_0000) as u8);
                out.push(((len / 0x1_0000) % 0x100) as u8);
                out.push(((len / 0x100) % 0x100) as u8);
                out.push((len % 0x100) as u8);
            } else if (len as u64) < 0x4_0000_0000 {
                out.push(0xf8 + (len as u64 / 0x1_0000_0000) as u8);
                out.push(((len / 0x100_0000) % 0x100) as u8);
                out.push(((len / 0x1_0000) % 0x100) as u8);
                out.push(((len / 0x100) % 0x100) as u8);
                out.push((len % 0x100) as u8);
            } else {
                return false;
            }
            let ghost mid = out@;
            assert(mid =~= old(out)@ + atom_header(b@));
            let mut i: usize = 0;
            while i < b.len()
                invariant
                    i <= b.len(),
                    out@ == mid + b@.subrange(0, i as int),
                decreases b.len() - i,
            {
                proof {
                    assert(b@.subrange(0, i as int + 1) =~= b@.subrange(0, i as int).push(
                        b@[i as int],
                    ));
                }
                out.push(b[i]);
                i += 1;
            }
            proof {
                assert(b@.subrange(0, b@.len() as int) =~= b@);
                assert(out@ =~= old(out)@ + ser(n@));
            }
            true
        },
        Node::Pair(l, r) => {
            out.push(0xff);
            let ok_l = ser_into(l, out);
            if !ok_l {
                return false;
            }
            let ok_r = ser_into(r, out);
            if !ok_r {
                return false;
            }
            proof {
                assert(out@ =~= old(out)@ + ser(n@));
            }
            true
        },
    }
}

/// Writes a tree in canonical wire form; `None` when some atom is too
/// long for the wire form.
pub fn serialize_node(n: &Node) -> (r: Option<Vec<u8>>)
    ensures
        r is Some <==> serializable(n@),
        r matches Some(v) ==> v@ == ser(n@),
{
    let mut out: Vec<u8> = Vec::new();
    let ok = ser_into(n, &mut out);
    if ok {
        Some(out)
    } else {
        None
    }
}

/// Reads one tree from `b` starting at `pos`, returning it and the
/// position after it; `None` on malformed or truncated input.
pub fn parse_node_at(b: &Vec<u8>, pos: usize) -> (r: Option<(Node, usize)>)
    ensures
        match r {
            Some(p) => parse(b@, pos as int) == Some((p.0@, p.1 as int)),
            None => parse(b@, pos as int) is None,
        },
    decreases b@.len() - pos,
{
    if pos >= b.len() {
        return None;
    }
    let h = b[pos];
    if h == 0xff {
        let left = parse_node_at(b, pos + 1);
        match left {
            None => None,
            Some((l, mid)) => {
                proof {
                    lemma_parse_sound(b@, pos as int + 1);
                }
                let right = parse_node_at(b, mid);
                match right {
                    None => None,
                    Some((rgt, end)) => Some((Node::pair(l, rgt), end)),
                }
            },
        }
    } else if h <= 0x7f {
        let mut v: Vec<u8> = Vec::new();
        v.push(h);
        assert(v@ =~= seq![b@[pos as int]]);
        Some((Node::Atom(v), pos + 1))
    } else if h == 0x80 {
        let v: Vec<u8> = Vec::new();
        assert(v@ =~= Seq::<u8>::empty());
        Some((Node::Atom(v), pos + 1))
    } else {
        let hl: usize;
        let size: u64;
        let minv: u64;
        if h < 0xc0 {
            hl = 1;
            size = (h - 0x80) as u64;
            minv = 0;
        } else if h < 0xe0 {
            if b.len() - pos < 2 {
                return None;
            }
            hl = 2;
            size = (h - 0xc0) as u64 * 0x100 + b[pos + 1] as u64;
            minv = 0x40;
        } else if h < 0xf0 {
            if b.len() - pos < 3 {
                return None;
            }
            hl = 3;
            size = (h - 0xe0) as u64 * 0x1_0000 + b[pos + 1] as u64 * 0x100 + b[pos + 2] as u64;
            minv = 0x2000;
        } else if h < 0xf8 {
            if b.len() - pos < 4 {
                return None;
            }
            hl = 4;
            size = (h - 0xf0) as u64 * 0x100_0000 + b[pos + 1] as u64 * 0x1_0000 + b[pos
                + 2] as u64 * 0x100 + b[pos + 3] as u64;
            minv = 0x10_0000;
        } else if h < 0xfc {
            if b.len() - pos < 5 {
                return None;
            }
            hl = 5;
            size = (h - 0xf8) as u64 * 0x1_0000_0000 + b[pos + 1] as u64 * 0x100_0000 + b[pos
                + 2] as u64 * 0x1_0000 + b[pos + 3] as u64 * 0x100 + b[pos + 4] as u64;
            minv = 0x800_0000;
        } else {
            return None;
        }
        if size < minv {
            return None;
        }
        if (hl as u64) + size > (b.len() - pos) as u64 {
            return None;
        }
        let start = pos + hl;
        let cnt = size as usize;
        if hl == 1 && cnt == 1 && b[start] < 0x80 {
            return None;
        }
        let mut v: Vec<u8> = Vec::new();
        let mut i: usize = 0;
        while i < cnt
            invariant
                i <= cnt,
                start + cnt <= b.len(),
                v@ == b@.subrange(start as int, start as int + i as int),
            decreases cnt - i,
        {
            proof {
                assert(b@.subrange(start as int, start as int + i + 1) =~= b@.subrange(
                    start as int,
                    start as int + i,
                ).push(b@[start + i]));
            }
            v.push(b[start + i]);
            i += 1;
        }
        Some((Node::Atom(v), start + cnt))
    }
}

/// Reads a whole byte string as one tree; `None` unless exactly one
/// tree fills it.
pub fn deserialize_node(b: &Vec<u8>) -> (r: Option<Node>)
    ensures
        match r {
            Some(n) => deser(b@) == Some(n@),
            None => deser(b@) is None,
        },
{
    match parse_node_at(b, 0) {
        Some((n, end)) => {
            if end == b.len() {
                Some(n)
            } else {
                None
            }
        },
        None => None,
    }
}

} // verus!
