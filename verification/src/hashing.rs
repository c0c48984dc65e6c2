//! Content addressing.
//!
//! Programs and values are addressed by a tree hash: an atom hashes as
//! SHA-256 over a `1` prefix and its bytes, a pair as SHA-256 over a
//! `2` prefix and its sides' hashes.  The same two combinators, applied
//! to hashes instead of trees, let a successor's address be computed
//! without rebuilding the tree.  SHA-256 itself is the one hashing
//! primitive taken on trust.

use vstd::prelude::*;

use crate::node::Node;
use crate::node::NodeV;
use crate::node::append_bytes;

verus! {

/// The SHA-256 digest of a byte string.
pub uninterp spec fn sha256_raw(b: Seq<u8>) -> Seq<u8>;

/// The SHA-256 digest of a byte string, 32 bytes by construction so
/// that every address in the model has the width the protocol fixes.
/// The fallback branch is never the real one: a digest is 32 bytes.
pub open spec fn sha256_of(b: Seq<u8>) -> Seq<u8> {
    if sha256_raw(b).len() == 32 {
        sha256_raw(b)
    } else {
        Seq::new(32, |i: int| 0u8)
    }
}

/// A digest is always 32 bytes.
pub proof fn lemma_sha256_len(b: Seq<u8>)
    ensures
        sha256_of(b).len() == 32,
{
}

/// Relies on chia_sha2::Sha256: a one-shot SHA-256 over the buffer.
/// The digest is 32 bytes and depends on the input bytes alone.
#[verifier::external_body]
pub(crate) fn sha256(b: &Vec<u8>) -> (r: Vec<u8>)
    ensures
        r@ == sha256_raw(b@),
        r@.len() == 32,
{
    let mut ctx = chia_sha2::Sha256::new();
    ctx.update(b);
    ctx.finalize().to_vec()
}

/// The hash an atom with these bytes contributes to a tree hash.
pub open spec fn hash_atom(b: Seq<u8>) -> Seq<u8> {
    sha256_of(seq![1u8] + b)
}

/// The hash a pair with these side hashes contributes to a tree hash.
pub open spec fn hash_pair(l: Seq<u8>, r: Seq<u8>) -> Seq<u8> {
    sha256_of(seq![2u8] + l + r)
}

/// The content address of a value tree.
pub open spec fn tree_hash_of(n: NodeV) -> Seq<u8>
    decreases n,
{
    match n {
        NodeV::Atom(b) => hash_atom(b),
        NodeV::Pair(l, r) => hash_pair(tree_hash_of(*l), tree_hash_of(*r)),
    }
}

/// Hashes an atom's bytes.
pub fn hash_atom_bytes(b: &Vec<u8>) -> (r: Vec<u8>)
    ensures
        r@ == hash_atom(b@),
        r@.len() == 32,
{
    let mut buf: Vec<u8> = Vec::new();
    buf.push(1);
    assert(buf@ =~= seq![1u8]);
    append_bytes(&mut buf, b);
    sha256(&buf)
}

/// Combines two side hashes into their pair's hash.
pub fn hash_pair_bytes(l: &Vec<u8>, r: &Vec<u8>) -> (h: Vec<u8>)
    ensures
        h@ == hash_pair(l@, r@),
        h@.len() == 32,
{
    let mut buf: Vec<u8> = Vec::new();
    buf.push(2);
    assert(buf@ =~= seq![2u8]);
    append_bytes(&mut buf, l);
    append_bytes(&mut buf, r);
    assert(buf@ =~= seq![2u8] + l@ + r@);
    sha256(&buf)
}

/// Computes the content address of a value tree.
pub fn tree_hash(n: &Node) -> (r: Vec<u8>)
    ensures
        r@ == tree_hash_of(n@),
        r@.len() == 32,
    decreases n,
{
    match n {
        Node::Atom(b) => hash_atom_bytes(b),
        Node::Pair(l, r) => {
            let lh = tree_hash(l);
            let rh = tree_hash(r);
            hash_pair_bytes(&lh, &rh)
        },
    }
}

} // verus!
