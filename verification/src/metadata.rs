//! The object's versioned metadata.
//!
//! Metadata is committed into the state layer by its tree hash, so its
//! value form is part of the protocol: a list whose first item is the
//! root hash atom, followed by one tagged pair per optional field —
//! `l` for the label, `d` for the description, `b` for the byte size —
//! in that order, each present only when set, the byte size always
//! last.  A bare atom in the metadata position is the legacy launch
//! format, which carries the root hash alone.

use vstd::prelude::*;

use crate::intbytes::atom_u64;
use crate::intbytes::bytes_to_u64;
use crate::intbytes::int_bytes;
use crate::intbytes::int_to_bytes;
use crate::intbytes::lemma_int_bytes_roundtrip;
use crate::node::Node;
use crate::node::NodeV;
use crate::node::copy_bytes;
use crate::node::lemma_as_list_list;

verus! {

/// Tag byte of the label field.
pub const LABEL_TAG: u8 = 108;

/// Tag byte of the description field.
pub const DESCRIPTION_TAG: u8 = 100;

/// Tag byte of the byte-size field.
pub const BYTES_TAG: u8 = 98;

/// An object's metadata: the committed root hash and three optional
/// annotations.
#[derive(Debug)]
pub struct DataStoreMetadata {
    pub root_hash: Vec<u8>,
    pub label: Option<Vec<u8>>,
    pub description: Option<Vec<u8>>,
    pub bytes: Option<u64>,
}

/// The mathematical shape of metadata.
pub struct MetadataV {
    pub root_hash: Seq<u8>,
    pub label: Option<Seq<u8>>,
    pub description: Option<Seq<u8>>,
    pub bytes: Option<u64>,
}

impl View for DataStoreMetadata {
    type V = MetadataV;

    open spec fn view(&self) -> MetadataV {
        MetadataV {
            root_hash: self.root_hash@,
            label: match self.label {
                Some(ref l) => Some(l@),
                None => None,
            },
            description: match self.description {
                Some(ref d) => Some(d@),
                None => None,
            },
            bytes: self.bytes,
        }
    }
}

impl MetadataV {
    /// The root hash is a 32-byte string.
    pub open spec fn wf(self) -> bool {
        self.root_hash.len() == 32
    }

    /// Metadata holding only a root hash.
    pub open spec fn root_hash_only(root_hash: Seq<u8>) -> MetadataV {
        MetadataV { root_hash, label: None, description: None, bytes: None }
    }
}

/// One optional tagged field as a (possibly empty) item list.
pub open spec fn tagged_field(tag: u8, value: Option<Seq<u8>>) -> Seq<NodeV> {
    match value {
        Some(v) => seq![NodeV::cons(NodeV::Atom(seq![tag]), NodeV::Atom(v))],
        None => seq![],
    }
}

/// The value tree metadata is written as.
pub open spec fn metadata_node(m: MetadataV) -> NodeV {
    NodeV::list(
        seq![NodeV::Atom(m.root_hash)] + tagged_field(LABEL_TAG, m.label) + tagged_field(
            DESCRIPTION_TAG,
            m.description,
        ) + tagged_field(
            BYTES_TAG,
            match m.bytes {
                Some(b) => Some(int_bytes(b)),
                None => None,
            },
        ),
    )
}

/// Reads the optional tagged pairs from position `i` on.  `stage`
/// records how far the field order has advanced: `0` before any field,
/// `1` after the label, `2` after the description.
pub open spec fn parse_fields(items: Seq<NodeV>, i: int, stage: int) -> Option<
    (Option<Seq<u8>>, Option<Seq<u8>>, Option<u64>),
>
    decreases items.len() - i,
{
    if i < 0 || i >= items.len() {
        Some((None, None, None))
    } else {
        match items[i] {
            NodeV::Pair(tag, value) => match (*tag, *value) {
                (NodeV::Atom(tagb), NodeV::Atom(v)) => if tagb == seq![LABEL_TAG] && stage == 0 {
                    match parse_fields(items, i + 1, 1) {
                        Some((_, description, size)) => Some((Some(v), description, size)),
                        None => None,
                    }
                } else if tagb == seq![DESCRIPTION_TAG] && stage <= 1 {
                    match parse_fields(items, i + 1, 2) {
                        Some((_, _, size)) => Some((None, Some(v), size)),
                        None => None,
                    }
                } else if tagb == seq![BYTES_TAG] && i == items.len() - 1 {
                    match atom_u64(v) {
                        Some(b) => Some((None, None, Some(b))),
                        None => None,
                    }
                } else {
                    None
                },
                _ => None,
            },
            NodeV::Atom(_) => None,
        }
    }
}

/// Reads metadata back from its value tree: the root hash atom, then
/// the optional tagged pairs in field order.
pub open spec fn parse_metadata_v(n: NodeV) -> Option<MetadataV> {
    match n.as_list() {
        Some(items) => if 1 <= items.len() {
            match items[0] {
                NodeV::Atom(root_hash) => if root_hash.len() == 32 {
                    match parse_fields(items, 1, 0) {
                        Some((label, description, bytes)) => Some(
                            MetadataV { root_hash, label, description, bytes },
                        ),
                        None => None,
                    }
                } else {
                    None
                },
                NodeV::Pair(_, _) => None,
            }
        } else {
            None
        },
        None => None,
    }
}

impl DataStoreMetadata {
    /// Metadata holding only a root hash.
    pub fn root_hash_only(root_hash: Vec<u8>) -> (r: DataStoreMetadata)
        ensures
            r@ == MetadataV::root_hash_only(root_hash@),
    {
        DataStoreMetadata { root_hash, label: None, description: None, bytes: None }
    }

    /// The committed root hash.
    pub fn root_hash(&self) -> (r: Vec<u8>)
        ensures
            r@ == self@.root_hash,
    {
        copy_bytes(&self.root_hash)
    }

    /// A field-for-field copy.
    pub fn duplicate(&self) -> (r: DataStoreMetadata)
        ensures
            r@ == self@,
    {
        DataStoreMetadata {
            root_hash: copy_bytes(&self.root_hash),
            label: match &self.label {
                Some(l) => Some(copy_bytes(l)),
                None => None,
            },
            description: match &self.description {
                Some(d) => Some(copy_bytes(d)),
                None => None,
            },
            bytes: self.bytes,
        }
    }

    /// Writes this metadata as its value tree.
    pub fn to_node(&self) -> (r: Node)
        ensures
            r@ == metadata_node(self@),
    {
        let mut items: Vec<Node> = Vec::new();
        items.push(Node::Atom(copy_bytes(&self.root_hash)));
        if let Some(l) = &self.label {
            items.push(Node::pair(tag_node(LABEL_TAG), Node::Atom(copy_bytes(l))));
        }
        if let Some(d) = &self.description {
            items.push(Node::pair(tag_node(DESCRIPTION_TAG), Node::Atom(copy_bytes(d))));
        }
        if let Some(b) = self.bytes {
            items.push(Node::pair(tag_node(BYTES_TAG), Node::Atom(int_to_bytes(b))));
        }
        proof {
            assert(items@.map_values(|n: Node| n@) =~= seq![NodeV::Atom(self.root_hash@)]
                + tagged_field(LABEL_TAG, self@.label) + tagged_field(
                DESCRIPTION_TAG,
                self@.description,
            ) + tagged_field(
                BYTES_TAG,
                match self@.bytes {
                    Some(b) => Some(int_bytes(b)),
                    None => None,
                },
            ));
        }
        Node::list(items)
    }
}

fn tag_node(tag: u8) -> (r: Node)
    ensures
        r@ == NodeV::Atom(seq![tag]),
{
    let mut v: Vec<u8> = Vec::new();
    v.push(tag);
    assert(v@ =~= seq![tag]);
    Node::Atom(v)
}

fn parse_fields_exec(items: &Vec<Node>, i: usize, stage: u8) -> (r: Option<
    (Option<Vec<u8>>, Option<Vec<u8>>, Option<u64>),
>)
    requires
        stage <= 2,
    ensures
        match r {
            Some(t) => parse_fields(items@.map_values(|x: Node| x@), i as int, stage as int)
                == Some(
                (
                    match t.0 {
                        Some(ref l) => Some::<Seq<u8>>(l@),
                        None => None,
                    },
                    match t.1 {
                        Some(ref d) => Some::<Seq<u8>>(d@),
                        None => None,
                    },
                    t.2,
                ),
            ),
            None => parse_fields(items@.map_values(|x: Node| x@), i as int, stage as int) is None,
        },
    decreases items@.len() - i,
{
    proof {
        reveal_with_fuel(crate::node::node_view, 4);
    }
    let ghost itemsv = items@.map_values(|x: Node| x@);
    if i >= items.len() {
        return Some((None, None, None));
    }
    proof {
        assert(itemsv[i as int] == items@[i as int]@);
    }
    match &items[i] {
        Node::Pair(tag, value) => match (&**tag, &**value) {
            (Node::Atom(tagb), Node::Atom(v)) => {
                proof {
                    if tagb@.len() == 1 {
                        assert(tagb@ =~= seq![tagb@[0]]);
                    } else {
                        assert(tagb@ != seq![LABEL_TAG] && tagb@ != seq![DESCRIPTION_TAG] && tagb@
                            != seq![BYTES_TAG]);
                    }
                }
                if tagb.len() == 1 && tagb[0] == LABEL_TAG && stage == 0 {
                    match parse_fields_exec(items, i + 1, 1) {
                        Some((_, description, size)) => Some(
                            (Some(copy_bytes(v)), description, size),
                        ),
                        None => None,
                    }
                } else if tagb.len() == 1 && tagb[0] == DESCRIPTION_TAG && stage <= 1 {
                    match parse_fields_exec(items, i + 1, 2) {
                        Some((_, _, size)) => Some((None, Some(copy_bytes(v)), size)),
                        None => None,
                    }
                } else if tagb.len() == 1 && tagb[0] == BYTES_TAG && i == items.len() - 1 {
                    match bytes_to_u64(v) {
                        Some(b) => Some((None, None, Some(b))),
                        None => None,
                    }
                } else {
                    None
                }
            },
            _ => None,
        },
        Node::Atom(_) => None,
    }
}

/// Reads metadata from its value tree.
pub fn parse_metadata(n: &Node) -> (r: Option<DataStoreMetadata>)
    ensures
        match r {
            Some(m) => parse_metadata_v(n@) == Some(m@),
            None => parse_metadata_v(n@) is None,
        },
{
    let items = match crate::node::as_list_exec(n) {
        Some(items) => items,
        None => {
            return None;
        },
    };
    let ghost itemsv = items@.map_values(|x: Node| x@);
    if items.len() < 1 {
        return None;
    }
    proof {
        assert(itemsv[0] == items@[0]@);
    }
    let root_hash = match &items[0] {
        Node::Atom(b) => {
            if b.len() == 32 {
                copy_bytes(b)
            } else {
                return None;
            }
        },
        Node::Pair(_, _) => {
            return None;
        },
    };
    match parse_fields_exec(&items, 1, 0) {
        Some((label, description, bytes)) => Some(
            DataStoreMetadata { root_hash, label, description, bytes },
        ),
        None => None,
    }
}

/// Reading written metadata back yields the metadata: the value form
/// round-trips.
pub proof fn lemma_metadata_roundtrip(m: MetadataV)
    requires
        m.wf(),
    ensures
        parse_metadata_v(metadata_node(m)) == Some(m),
{
    let items = seq![NodeV::Atom(m.root_hash)] + tagged_field(LABEL_TAG, m.label) + tagged_field(
        DESCRIPTION_TAG,
        m.description,
    ) + tagged_field(
        BYTES_TAG,
        match m.bytes {
            Some(b) => Some(int_bytes(b)),
            None => None,
        },
    );
    lemma_as_list_list(items);
    reveal_with_fuel(parse_fields, 6);
    if let Some(b) = m.bytes {
        lemma_int_bytes_roundtrip(b);
    }
    assert(seq![LABEL_TAG][0] == LABEL_TAG);
    assert(seq![DESCRIPTION_TAG][0] == DESCRIPTION_TAG);
    assert(seq![BYTES_TAG][0] == BYTES_TAG);
    match (m.label, m.description, m.bytes) {
        (None, None, None) => {
            assert(items =~= seq![NodeV::Atom(m.root_hash)]);
        },
        (None, None, Some(b)) => {
            assert(items =~= seq![
                NodeV::Atom(m.root_hash),
                NodeV::cons(NodeV::Atom(seq![BYTES_TAG]), NodeV::Atom(int_bytes(b))),
            ]);
        },
        (None, Some(d), None) => {
            assert(items =~= seq![
                NodeV::Atom(m.root_hash),
                NodeV::cons(NodeV::Atom(seq![DESCRIPTION_TAG]), NodeV::Atom(d)),
            ]);
        },
        (None, Some(d), Some(b)) => {
            assert(items =~= seq![
                NodeV::Atom(m.root_hash),
                NodeV::cons(NodeV::Atom(seq![DESCRIPTION_TAG]), NodeV::Atom(d)),
                NodeV::cons(NodeV::Atom(seq![BYTES_TAG]), NodeV::Atom(int_bytes(b))),
            ]);
        },
        (Some(l), None, None) => {
            assert(items =~= seq![
                NodeV::Atom(m.root_hash),
                NodeV::cons(NodeV::Atom(seq![LABEL_TAG]), NodeV::Atom(l)),
            ]);
        },
        (Some(l), None, Some(b)) => {
            assert(items =~= seq![
                NodeV::Atom(m.root_hash),
                NodeV::cons(NodeV::Atom(seq![LABEL_TAG]), NodeV::Atom(l)),
                NodeV::cons(NodeV::Atom(seq![BYTES_TAG]), NodeV::Atom(int_bytes(b))),
            ]);
        },
        (Some(l), Some(d), None) => {
            assert(items =~= seq![
                NodeV::Atom(m.root_hash),
                NodeV::cons(NodeV::Atom(seq![LABEL_TAG]), NodeV::Atom(l)),
                NodeV::cons(NodeV::Atom(seq![DESCRIPTION_TAG]), NodeV::Atom(d)),
            ]);
        },
        (Some(l), Some(d), Some(b)) => {
            assert(items =~= seq![
                NodeV::Atom(m.root_hash),
                NodeV::cons(NodeV::Atom(seq![LABEL_TAG]), NodeV::Atom(l)),
                NodeV::cons(NodeV::Atom(seq![DESCRIPTION_TAG]), NodeV::Atom(d)),
                NodeV::cons(NodeV::Atom(seq![BYTES_TAG]), NodeV::Atom(int_bytes(b))),
            ]);
        },
    }
}

/// Metadata that can name its committed root hash, and be built from
/// one alone.  The chain's legacy launch format carries only the root
/// hash; this is how it becomes a full metadata value.
pub trait MetadataWithRootHash: Sized {
    /// The committed root hash.
    spec fn spec_root_hash(&self) -> Seq<u8>;

    /// Returns the committed root hash.
    fn root_hash(&self) -> (r: Vec<u8>)
        ensures
            r@ == self.spec_root_hash(),
    ;

    /// Builds the metadata that holds only this root hash.
    fn root_hash_only(root_hash: Vec<u8>) -> (r: Self)
        ensures
            r.spec_root_hash() == root_hash@,
    ;
}

impl MetadataWithRootHash for DataStoreMetadata {
    open spec fn spec_root_hash(&self) -> Seq<u8> {
        self@.root_hash
    }

    fn root_hash(&self) -> (r: Vec<u8>) {
        copy_bytes(&self.root_hash)
    }

    fn root_hash_only(root_hash: Vec<u8>) -> (r: Self) {
        DataStoreMetadata { root_hash, label: None, description: None, bytes: None }
    }
}

} // verus!
