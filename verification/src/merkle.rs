//! The authorization set's merkle tree.
//!
//! The delegation layer commits to its alternate spend paths as the
//! root of a merkle tree over their puzzle hashes: a leaf hashes with
//! prefix `1`, an inner node with prefix `2` over its children, and a
//! list of more than one leaf splits at the midpoint, the left half
//! rounding up.  Exercising a path means presenting its membership
//! proof in the solution; the layer's authority is exactly "the inner
//! puzzle hash is provably a member of this root".
//!
//! Proving a hash *outside* the set to the root would take a SHA-256
//! collision; that negative guarantee rests on the hash function and
//! is not stated here.

use vstd::prelude::*;

use crate::hashing::hash_atom;
use crate::hashing::hash_atom_bytes;
use crate::hashing::hash_pair;
use crate::hashing::hash_pair_bytes;
use crate::node::bytes_eq;

verus! {

/// The root of the tree over these leaf hashes.
pub open spec fn merkle_root(leaves: Seq<Seq<u8>>) -> Seq<u8>
    decreases leaves.len(),
{
    if leaves.len() == 0 {
        hash_atom(seq![])
    } else if leaves.len() == 1 {
        hash_atom(leaves[0])
    } else {
        let mid = (leaves.len() / 2 + leaves.len() % 2) as int;
        hash_pair(merkle_root(leaves.take(mid)), merkle_root(leaves.skip(mid)))
    }
}

/// Climbs from a leaf to a root along a proof: each step pairs the
/// running hash with the next sibling, on the side the path bit names
/// (`false` keeps the running hash on the left).
pub open spec fn merkle_fold(leaf: Seq<u8>, path: Seq<bool>, sibs: Seq<Seq<u8>>) -> Seq<u8>
    decreases sibs.len(),
{
    if sibs.len() == 0 {
        hash_atom(leaf)
    } else {
        let prev = merkle_fold(leaf, path.drop_last(), sibs.drop_last());
        if path.last() {
            hash_pair(sibs.last(), prev)
        } else {
            hash_pair(prev, sibs.last())
        }
    }
}

/// Whether a proof takes the leaf to the root.
pub open spec fn merkle_verify(
    root: Seq<u8>,
    leaf: Seq<u8>,
    path: Seq<bool>,
    sibs: Seq<Seq<u8>>,
) -> bool {
    path.len() == sibs.len() && merkle_fold(leaf, path, sibs) == root
}

/// A membership proof: one sibling hash per level, leaf end first.
#[derive(Debug)]
pub struct MerkleProof {
    pub path: Vec<bool>,
    pub hashes: Vec<Vec<u8>>,
}

/// The authorization set's tree, kept as its ordered leaf hashes.
#[derive(Debug)]
pub struct MerkleTree {
    pub leaves: Vec<Vec<u8>>,
}

fn root_range(leaves: &Vec<Vec<u8>>, lo: usize, hi: usize) -> (r: Vec<u8>)
    requires
        lo < hi <= leaves@.len(),
    ensures
        r@ == merkle_root(leaves@.map_values(|l: Vec<u8>| l@).subrange(lo as int, hi as int)),
        r@.len() == 32,
    decreases hi - lo,
{
    let ghost range = leaves@.map_values(|l: Vec<u8>| l@).subrange(lo as int, hi as int);
    if hi - lo == 1 {
        proof {
            assert(range[0] == leaves@[lo as int]@);
        }
        hash_atom_bytes(&leaves[lo])
    } else {
        let n = hi - lo;
        let mid = lo + (n / 2 + n % 2);
        let left = root_range(leaves, lo, mid);
        let right = root_range(leaves, mid, hi);
        proof {
            let m = (mid - lo) as int;
            assert(range.take(m) =~= leaves@.map_values(|l: Vec<u8>| l@).subrange(
                lo as int,
                mid as int,
            ));
            assert(range.skip(m) =~= leaves@.map_values(|l: Vec<u8>| l@).subrange(
                mid as int,
                hi as int,
            ));
        }
        hash_pair_bytes(&left, &right)
    }
}

fn proof_range(leaves: &Vec<Vec<u8>>, lo: usize, hi: usize, k: usize) -> (r: (
    Vec<bool>,
    Vec<Vec<u8>>,
))
    requires
        lo <= k < hi <= leaves@.len(),
    ensures
        r.0@.len() == r.1@.len(),
        r.1@.len() < hi - lo,
        merkle_fold(leaves@[k as int]@, r.0@, r.1@.map_values(|h: Vec<u8>| h@)) == merkle_root(
            leaves@.map_values(|l: Vec<u8>| l@).subrange(lo as int, hi as int),
        ),
    decreases hi - lo,
{
    let ghost range = leaves@.map_values(|l: Vec<u8>| l@).subrange(lo as int, hi as int);
    if hi - lo == 1 {
        let path: Vec<bool> = Vec::new();
        let sibs: Vec<Vec<u8>> = Vec::new();
        proof {
            assert(sibs@.map_values(|h: Vec<u8>| h@) =~= Seq::<Seq<u8>>::empty());
            assert(range[0] == leaves@[k as int]@);
        }
        (path, sibs)
    } else {
        let n = hi - lo;
        let mid = lo + (n / 2 + n % 2);
        proof {
            let m = (mid - lo) as int;
            assert(range.take(m) =~= leaves@.map_values(|l: Vec<u8>| l@).subrange(
                lo as int,
                mid as int,
            ));
            assert(range.skip(m) =~= leaves@.map_values(|l: Vec<u8>| l@).subrange(
                mid as int,
                hi as int,
            ));
        }
        if k < mid {
            let (mut path, mut sibs) = proof_range(leaves, lo, mid, k);
            let sibling = root_range(leaves, mid, hi);
            let ghost sibsv = sibs@.map_values(|h: Vec<u8>| h@);
            let ghost pathv = path@;
            path.push(false);
            sibs.push(sibling);
            proof {
                assert(sibs@.map_values(|h: Vec<u8>| h@) =~= sibsv.push(sibling@));
                assert(path@.drop_last() =~= pathv);
                assert(sibs@.map_values(|h: Vec<u8>| h@).drop_last() =~= sibsv);
                assert(sibs@.map_values(|h: Vec<u8>| h@).last() == sibling@);
            }
            (path, sibs)
        } else {
            let (mut path, mut sibs) = proof_range(leaves, mid, hi, k);
            let sibling = root_range(leaves, lo, mid);
            let ghost sibsv = sibs@.map_values(|h: Vec<u8>| h@);
            let ghost pathv = path@;
            path.push(true);
            sibs.push(sibling);
            proof {
                assert(sibs@.map_values(|h: Vec<u8>| h@) =~= sibsv.push(sibling@));
                assert(path@.drop_last() =~= pathv);
                assert(sibs@.map_values(|h: Vec<u8>| h@).drop_last() =~= sibsv);
                assert(sibs@.map_values(|h: Vec<u8>| h@).last() == sibling@);
            }
            (path, sibs)
        }
    }
}

impl MerkleTree {
    /// A tree over the given ordered leaf hashes.
    pub fn new(leaves: Vec<Vec<u8>>) -> (r: MerkleTree)
        ensures
            r.leaves@ == leaves@,
    {
        MerkleTree { leaves }
    }

    /// The committed root.
    pub fn get_root(&self) -> (r: Vec<u8>)
        ensures
            r@ == merkle_root(self.leaves@.map_values(|l: Vec<u8>| l@)),
            self.leaves@.len() > 0 ==> r@.len() == 32,
    {
        if self.leaves.len() == 0 {
            let empty: Vec<u8> = Vec::new();
            let r = hash_atom_bytes(&empty);
            proof {
                assert(empty@ =~= Seq::<u8>::empty());
                assert(self.leaves@.map_values(|l: Vec<u8>| l@) =~= Seq::<Seq<u8>>::empty());
            }
            r
        } else {
            let r = root_range(&self.leaves, 0, self.leaves.len());
            proof {
                assert(self.leaves@.map_values(|l: Vec<u8>| l@).subrange(
                    0,
                    self.leaves@.len() as int,
                ) =~= self.leaves@.map_values(|l: Vec<u8>| l@));
            }
            r
        }
    }

    /// A membership proof for the first leaf equal to `leaf_hash`, or
    /// nothing when the hash is not in the set.  The proof it returns
    /// takes the leaf to this tree's root: membership is sound by
    /// construction.
    pub fn generate_proof(&self, leaf_hash: &Vec<u8>) -> (r: Option<MerkleProof>)
        ensures
            match r {
                Some(pf) => self.leaves@.map_values(|l: Vec<u8>| l@).contains(leaf_hash@)
                    && pf.path@.len() < self.leaves@.len() && merkle_verify(
                    merkle_root(self.leaves@.map_values(|l: Vec<u8>| l@)),
                    leaf_hash@,
                    pf.path@,
                    pf.hashes@.map_values(|h: Vec<u8>| h@),
                ),
                None => !self.leaves@.map_values(|l: Vec<u8>| l@).contains(leaf_hash@),
            },
    {
        let ghost views = self.leaves@.map_values(|l: Vec<u8>| l@);
        let mut k: usize = 0;
        while k < self.leaves.len()
            invariant
                k <= self.leaves@.len(),
                views == self.leaves@.map_values(|l: Vec<u8>| l@),
                forall|j: int| 0 <= j < k ==> views[j] != leaf_hash@,
            decreases self.leaves@.len() - k,
        {
            if bytes_eq(&self.leaves[k], leaf_hash) {
                let (path, hashes) = proof_range(&self.leaves, 0, self.leaves.len(), k);
                proof {
                    assert(views[k as int] == leaf_hash@);
                    assert(views.subrange(0, views.len() as int) =~= views);
                }
                return Some(MerkleProof { path, hashes });
            }
            k += 1;
        }
        proof {
            if views.contains(leaf_hash@) {
                let j = choose|j: int| 0 <= j < views.len() && views[j] == leaf_hash@;
                assert(views[j] != leaf_hash@);
            }
        }
        None
    }
}

/// The integer a path encodes: bit `i` set means the step at level
/// `i` keeps the target on the right.
pub open spec fn path_value(path: Seq<bool>) -> nat
    decreases path.len(),
{
    if path.len() == 0 {
        0
    } else {
        (if path[0] {
            1nat
        } else {
            0nat
        }) + 2 * path_value(path.drop_first())
    }
}

/// Two raised to a small power.
pub open spec fn pow2m(k: nat) -> nat
    decreases k,
{
    if k == 0 {
        1
    } else {
        2 * pow2m((k - 1) as nat)
    }
}

proof fn lemma_path_value_bound(path: Seq<bool>)
    ensures
        path_value(path) < pow2m(path.len()),
    decreases path.len(),
{
    if path.len() > 0 {
        lemma_path_value_bound(path.drop_first());
    }
}

/// Encodes a path as an integer; `None` when the path is too deep for
/// 64 bits.
pub fn path_to_u64(path: &Vec<bool>) -> (r: Option<u64>)
    ensures
        match r {
            Some(v) => v == path_value(path@),
            None => path@.len() > 63,
        },
{
    if path.len() > 63 {
        return None;
    }
    let mut acc: u64 = 0;
    let mut i: usize = path.len();
    proof {
        assert(path@.skip(path@.len() as int) =~= Seq::<bool>::empty());
    }
    while i > 0
        invariant
            i <= path@.len() <= 63,
            acc == path_value(path@.skip(i as int)),
            acc < pow2m((path@.len() - i) as nat),
        decreases i,
    {
        i -= 1;
        proof {
            assert(path@.skip(i as int).drop_first() =~= path@.skip(i as int + 1));
            lemma_pow2m_mono((path@.len() - i - 1) as nat, 62);
            lemma_pow2m_values();
        }
        acc = acc * 2 + (if path[i] {
            1u64
        } else {
            0u64
        });
    }
    proof {
        assert(path@.skip(0) =~= path@);
    }
    Some(acc)
}

proof fn lemma_pow2m_values()
    ensures
        pow2m(62) == 0x4000_0000_0000_0000,
        pow2m(63) == 0x8000_0000_0000_0000,
{
    reveal_with_fuel(pow2m, 64);
}

proof fn lemma_pow2m_mono(a: nat, b: nat)
    requires
        a <= b,
    ensures
        pow2m(a) <= pow2m(b),
    decreases b,
{
    if a < b {
        lemma_pow2m_mono(a, (b - 1) as nat);
    }
}

/// Checks a membership proof against a root.
pub fn verify_proof(root: &Vec<u8>, leaf_hash: &Vec<u8>, proof: &MerkleProof) -> (r: bool)
    ensures
        r == merkle_verify(
            root@,
            leaf_hash@,
            proof.path@,
            proof.hashes@.map_values(|h: Vec<u8>| h@),
        ),
{
    let ghost sibsv = proof.hashes@.map_values(|h: Vec<u8>| h@);
    if proof.path.len() != proof.hashes.len() {
        return false;
    }
    let mut h = hash_atom_bytes(leaf_hash);
    let mut i: usize = 0;
    while i < proof.hashes.len()
        invariant
            i <= proof.hashes@.len(),
            proof.path@.len() == proof.hashes@.len(),
            sibsv == proof.hashes@.map_values(|h: Vec<u8>| h@),
            h@ == merkle_fold(leaf_hash@, proof.path@.take(i as int), sibsv.take(i as int)),
        decreases proof.hashes@.len() - i,
    {
        proof {
            assert(proof.path@.take(i as int + 1).drop_last() =~= proof.path@.take(i as int));
            assert(sibsv.take(i as int + 1).drop_last() =~= sibsv.take(i as int));
            assert(sibsv[i as int] == proof.hashes@[i as int]@);
        }
        if proof.path[i] {
            h = hash_pair_bytes(&proof.hashes[i], &h);
        } else {
            h = hash_pair_bytes(&h, &proof.hashes[i]);
        }
        i += 1;
    }
    proof {
        assert(proof.path@.take(proof.path@.len() as int) =~= proof.path@);
        assert(sibsv.take(sibsv.len() as int) =~= sibsv);
    }
    bytes_eq(&h, root)
}

} // verus!
