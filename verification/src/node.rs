//! The value model of the ledger's program language.
//!
//! Every program, solution and emitted effect is a tree of atoms (byte
//! strings) and ordered pairs.  `Node` is the executable tree; `NodeV`
//! is its mathematical shape, which contracts speak about.

use vstd::prelude::*;

use crate::intbytes::int_bytes;
use crate::intbytes::int_to_bytes;

verus! {

/// An executable value tree: an atom of bytes, or a pair of values.
#[derive(Debug)]
pub enum Node {
    Atom(Vec<u8>),
    Pair(Box<Node>, Box<Node>),
}

/// The mathematical shape of a value tree.
pub enum NodeV {
    Atom(Seq<u8>),
    Pair(Box<NodeV>, Box<NodeV>),
}

/// The shape of an executable value tree.
pub open spec fn node_view(n: Node) -> NodeV
    decreases n,
{
    match n {
        Node::Atom(b) => NodeV::Atom(b@),
        Node::Pair(l, r) => NodeV::Pair(Box::new(node_view(*l)), Box::new(node_view(*r))),
    }
}

impl View for Node {
    type V = NodeV;

    open spec fn view(&self) -> NodeV {
        node_view(*self)
    }
}

impl NodeV {
    /// A pair, without the boxing noise.
    pub open spec fn cons(l: NodeV, r: NodeV) -> NodeV {
        NodeV::Pair(Box::new(l), Box::new(r))
    }

    /// The empty atom, the language's nil and list terminator.
    pub open spec fn nil() -> NodeV {
        NodeV::Atom(seq![])
    }

    pub open spec fn is_atom(self) -> bool {
        match self {
            NodeV::Atom(_) => true,
            NodeV::Pair(_, _) => false,
        }
    }

    pub open spec fn bytes(self) -> Seq<u8>
        recommends
            self.is_atom(),
    {
        match self {
            NodeV::Atom(b) => b,
            NodeV::Pair(_, _) => seq![],
        }
    }

    pub open spec fn left(self) -> NodeV
        recommends
            !self.is_atom(),
    {
        match self {
            NodeV::Atom(_) => NodeV::nil(),
            NodeV::Pair(l, _) => *l,
        }
    }

    pub open spec fn right(self) -> NodeV
        recommends
            !self.is_atom(),
    {
        match self {
            NodeV::Atom(_) => NodeV::nil(),
            NodeV::Pair(_, r) => *r,
        }
    }

    /// The proper list `(items... . nil)` holding the given items.
    pub open spec fn list(items: Seq<NodeV>) -> NodeV
        decreases items.len(),
    {
        if items.len() == 0 {
            NodeV::nil()
        } else {
            NodeV::cons(items.first(), NodeV::list(items.drop_first()))
        }
    }

    /// The items of a proper list, if the value is one.
    pub open spec fn as_list(self) -> Option<Seq<NodeV>>
        decreases self,
    {
        match self {
            NodeV::Atom(b) => if b.len() == 0 {
                Some(Seq::empty())
            } else {
                None
            },
            NodeV::Pair(l, r) => match (*r).as_list() {
                Some(items) => Some(seq![*l] + items),
                None => None,
            },
        }
    }

    /// The minimal signed big-endian atom holding a 64-bit value.
    pub open spec fn int_atom(v: u64) -> NodeV {
        NodeV::Atom(int_bytes(v))
    }
}

impl Node {
    /// The empty atom.
    pub fn nil() -> (r: Node)
        ensures
            r@ == NodeV::nil(),
    {
        Node::Atom(Vec::new())
    }

    pub fn pair(l: Node, r: Node) -> (res: Node)
        ensures
            res@ == NodeV::cons(l@, r@),
    {
        Node::Pair(Box::new(l), Box::new(r))
    }

    /// The minimal signed big-endian atom holding a 64-bit value.
    pub fn from_u64(v: u64) -> (r: Node)
        ensures
            r@ == NodeV::int_atom(v),
    {
        Node::Atom(int_to_bytes(v))
    }

    /// A deep copy.
    pub fn duplicate(&self) -> (r: Node)
        ensures
            r@ == self@,
        decreases self,
    {
        match self {
            Node::Atom(b) => {
                let mut c: Vec<u8> = Vec::new();
                let mut i: usize = 0;
                while i < b.len()
                    invariant
                        i <= b.len(),
                        c@ =~= b@.subrange(0, i as int),
                    decreases b.len() - i,
                {
                    c.push(b[i]);
                    i += 1;
                }
                assert(c@ =~= b@);
                Node::Atom(c)
            },
            Node::Pair(l, r) => Node::Pair(Box::new(l.duplicate()), Box::new(r.duplicate())),
        }
    }

    /// Structural equality of two value trees.
    pub fn equals(&self, other: &Node) -> (r: bool)
        ensures
            r == (self@ == other@),
        decreases self,
    {
        match (self, other) {
            (Node::Atom(a), Node::Atom(b)) => bytes_eq(a, b),
            (Node::Pair(al, ar), Node::Pair(bl, br)) => {
                if al.equals(bl) {
                    ar.equals(br)
                } else {
                    false
                }
            },
            _ => false,
        }
    }

    /// Builds the proper list holding the given items, in order.
    pub fn list(items: Vec<Node>) -> (r: Node)
        ensures
            r@ == NodeV::list(items@.map_values(|n: Node| n@)),
    {
        let mut r = Node::nil();
        let mut items = items;
        let ghost all = items@.map_values(|n: Node| n@);
        let mut i: usize = items.len();
        proof {
            assert(all.skip(i as int) =~= Seq::<NodeV>::empty());
        }
        while i > 0
            invariant
                i == items@.len() <= all.len(),
                items@.map_values(|n: Node| n@) =~= all.subrange(0, i as int),
                r@ == NodeV::list(all.skip(i as int)),
            decreases i,
        {
            i -= 1;
            let ghost prev = items@;
            let n = items.pop().unwrap();
            proof {
                assert(prev.map_values(|m: Node| m@)[i as int] == n@);
                assert(n@ == all[i as int]);
                assert(items@.map_values(|m: Node| m@) =~= prev.map_values(
                    |m: Node| m@,
                ).drop_last());
                assert(items@.map_values(|m: Node| m@) =~= all.subrange(0, i as int));
                lemma_list_unfold(all, i as int);
            }
            r = Node::pair(n, r);
        }
        assert(all.skip(0) =~= all);
        r
    }
}

/// Reading a built list back yields its items.
pub proof fn lemma_as_list_list(items: Seq<NodeV>)
    ensures
        NodeV::list(items).as_list() == Some(items),
    decreases items.len(),
{
    if items.len() == 0 {
        assert(items =~= Seq::<NodeV>::empty());
    } else {
        lemma_as_list_list(items.drop_first());
        assert(seq![items.first()] + items.drop_first() =~= items);
    }
}

/// The items of a proper list, as copies; `None` when the value is not
/// a proper list.
pub fn as_list_exec(n: &Node) -> (r: Option<Vec<Node>>)
    ensures
        match r {
            Some(v) => n@.as_list() == Some(v@.map_values(|x: Node| x@)),
            None => n@.as_list() is None,
        },
    decreases n,
{
    proof {
        reveal_with_fuel(node_view, 4);
    }
    match n {
        Node::Atom(b) => {
            if b.len() == 0 {
                let v: Vec<Node> = Vec::new();
                proof {
                    assert(v@.map_values(|x: Node| x@) =~= Seq::<NodeV>::empty());
                }
                Some(v)
            } else {
                None
            }
        },
        Node::Pair(l, r) => match as_list_exec(r) {
            Some(rest) => {
                let ghost restv = rest@.map_values(|x: Node| x@);
                let mut rest = rest;
                rest.insert(0, l.duplicate());
                proof {
                    assert(rest@.map_values(|x: Node| x@) =~= seq![(**l)@] + restv);
                }
                Some(rest)
            },
            None => None,
        },
    }
}

/// Appends a copy of `b` to `out`.
pub fn append_bytes(out: &mut Vec<u8>, b: &Vec<u8>)
    ensures
        final(out)@ == old(out)@ + b@,
{
    let mut i: usize = 0;
    while i < b.len()
        invariant
            i <= b.len(),
            out@ == old(out)@ + b@.subrange(0, i as int),
        decreases b.len() - i,
    {
        proof {
            assert(b@.subrange(0, i as int + 1) =~= b@.subrange(0, i as int).push(b@[i as int]));
        }
        out.push(b[i]);
        i += 1;
    }
    assert(b@.subrange(0, b@.len() as int) =~= b@);
}

/// A copy of a byte string.
pub fn copy_bytes(b: &Vec<u8>) -> (r: Vec<u8>)
    ensures
        r@ == b@,
{
    let mut out: Vec<u8> = Vec::new();
    append_bytes(&mut out, b);
    assert(Seq::<u8>::empty() + b@ =~= b@);
    out
}

/// Byte-string equality.
pub fn bytes_eq(a: &Vec<u8>, b: &Vec<u8>) -> (r: bool)
    ensures
        r == (a@ == b@),
{
    if a.len() != b.len() {
        return false;
    }
    let mut i: usize = 0;
    while i < a.len()
        invariant
            i <= a.len(),
            a.len() == b.len(),
            forall|j: int| 0 <= j < i ==> a@[j] == b@[j],
        decreases a.len() - i,
    {
        if a[i] != b[i] {
            return false;
        }
        i += 1;
    }
    proof {
        assert(a@ =~= b@);
    }
    true
}

/// Prepending one item to a list value conses it onto the rest.
proof fn lemma_list_unfold(items: Seq<NodeV>, i: int)
    requires
        0 <= i < items.len(),
    ensures
        NodeV::list(items.skip(i)) == NodeV::cons(items[i], NodeV::list(items.skip(i + 1))),
{
    assert(items.skip(i).first() == items[i]);
    assert(items.skip(i).drop_first() =~= items.skip(i + 1));
}

} // verus!
