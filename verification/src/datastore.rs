//! The object state engine.
//!
//! An object is a singleton: a coin lineage with a permanent identity,
//! carrying versioned metadata and, optionally, a capability-gated
//! authorization set.  The forward path composes the layers around an
//! inner spend and serializes the result into a spend record; the
//! reverse path reads a recorded spend, re-executes the inner puzzles,
//! classifies their effects, and rebuilds the logical state the chain
//! committed to.

use vstd::prelude::*;

use crate::coin::Coin;
use crate::coin::CoinSpendV;
use crate::coin::CoinSpend;
use crate::coin::CoinV;
use crate::coin::coin_id_of;
use crate::conditions::ConditionV;
use crate::curry::curry_hash;
use crate::errors::DriverError;
use crate::hashing::tree_hash;
use crate::hashing::tree_hash_of;
use crate::memos::DelegatedPuzzle;
use crate::memos::DelegatedPuzzleV;
use crate::merkle::MerkleProof;
use crate::merkle::MerkleTree;
use crate::merkle::merkle_root;
use crate::merkle::merkle_verify;
use crate::merkle::path_to_u64;
use crate::merkle::path_value;
use crate::metadata::DataStoreMetadata;
use crate::metadata::MetadataV;
use crate::metadata::metadata_node;
use crate::node::Node;
use crate::node::NodeV;
use crate::node::copy_bytes;
use crate::puzzles::delegation_puzzle;
use crate::puzzles::delegation_puzzle_hash;
use crate::puzzles::oracle_puzzle;
use crate::puzzles::oracle_puzzle_node;
use crate::puzzles::singleton_top;
use crate::puzzles::state_layer_puzzle;
use crate::puzzles::writer_mod_hash;
use crate::puzzles::writer_mod_node;

verus! {

/// Evidence that a coin legitimately continues its singleton chain.
#[derive(Debug)]
pub enum Proof {
    Eve(EveProof),
    Lineage(LineageProof),
}

/// The first coin after launch proves itself by the launcher's parent.
#[derive(Debug)]
pub struct EveProof {
    pub parent_parent_coin_info: Vec<u8>,
    pub parent_amount: u64,
}

/// A later coin proves itself by its predecessor's parent, inner
/// puzzle hash and amount.
#[derive(Debug)]
pub struct LineageProof {
    pub parent_parent_coin_info: Vec<u8>,
    pub parent_inner_puzzle_hash: Vec<u8>,
    pub parent_amount: u64,
}

/// The mathematical shape of a continuity proof.
pub enum ProofV {
    Eve(Seq<u8>, u64),
    Lineage(Seq<u8>, Seq<u8>, u64),
}

impl View for Proof {
    type V = ProofV;

    open spec fn view(&self) -> ProofV {
        match self {
            Proof::Eve(e) => ProofV::Eve(e.parent_parent_coin_info@, e.parent_amount),
            Proof::Lineage(l) => ProofV::Lineage(
                l.parent_parent_coin_info@,
                l.parent_inner_puzzle_hash@,
                l.parent_amount,
            ),
        }
    }
}

/// The value tree a continuity proof is written as in a solution.
pub open spec fn proof_node(p: ProofV) -> NodeV {
    match p {
        ProofV::Eve(ppci, amount) => NodeV::list(seq![NodeV::Atom(ppci), NodeV::int_atom(amount)]),
        ProofV::Lineage(ppci, inner_ph, amount) => NodeV::list(
            seq![NodeV::Atom(ppci), NodeV::Atom(inner_ph), NodeV::int_atom(amount)],
        ),
    }
}

impl Proof {
    /// Writes this proof as its value tree.
    pub fn to_node(&self) -> (r: Node)
        ensures
            r@ == proof_node(self@),
    {
        match self {
            Proof::Eve(e) => {
                let mut items: Vec<Node> = Vec::new();
                items.push(Node::Atom(copy_bytes(&e.parent_parent_coin_info)));
                items.push(Node::from_u64(e.parent_amount));
                proof {
                    assert(items@.map_values(|n: Node| n@) =~= seq![
                        NodeV::Atom(e.parent_parent_coin_info@),
                        NodeV::int_atom(e.parent_amount),
                    ]);
                }
                Node::list(items)
            },
            Proof::Lineage(l) => {
                let mut items: Vec<Node> = Vec::new();
                items.push(Node::Atom(copy_bytes(&l.parent_parent_coin_info)));
                items.push(Node::Atom(copy_bytes(&l.parent_inner_puzzle_hash)));
                items.push(Node::from_u64(l.parent_amount));
                proof {
                    assert(items@.map_values(|n: Node| n@) =~= seq![
                        NodeV::Atom(l.parent_parent_coin_info@),
                        NodeV::Atom(l.parent_inner_puzzle_hash@),
                        NodeV::int_atom(l.parent_amount),
                    ]);
                }
                Node::list(items)
            },
        }
    }

    /// A field-for-field copy.
    pub fn duplicate(&self) -> (r: Proof)
        ensures
            r@ == self@,
    {
        match self {
            Proof::Eve(e) => Proof::Eve(
                EveProof {
                    parent_parent_coin_info: copy_bytes(&e.parent_parent_coin_info),
                    parent_amount: e.parent_amount,
                },
            ),
            Proof::Lineage(l) => Proof::Lineage(
                LineageProof {
                    parent_parent_coin_info: copy_bytes(&l.parent_parent_coin_info),
                    parent_inner_puzzle_hash: copy_bytes(&l.parent_inner_puzzle_hash),
                    parent_amount: l.parent_amount,
                },
            ),
        }
    }
}

/// An inner spend: the authorization puzzle being exercised and its
/// solution.
#[derive(Debug)]
pub struct Spend {
    pub puzzle: Node,
    pub solution: Node,
}

/// The logical, chain-independent state of an object.
#[derive(Debug)]
pub struct DataStoreInfo {
    pub launcher_id: Vec<u8>,
    pub metadata: DataStoreMetadata,
    pub owner_puzzle_hash: Vec<u8>,
    pub delegated_puzzles: Vec<DelegatedPuzzle>,
}

/// The mathematical shape of the logical state.
pub struct DataStoreInfoV {
    pub launcher_id: Seq<u8>,
    pub metadata: MetadataV,
    pub owner_puzzle_hash: Seq<u8>,
    pub delegated_puzzles: Seq<DelegatedPuzzleV>,
}

impl View for DataStoreInfo {
    type V = DataStoreInfoV;

    open spec fn view(&self) -> DataStoreInfoV {
        DataStoreInfoV {
            launcher_id: self.launcher_id@,
            metadata: self.metadata@,
            owner_puzzle_hash: self.owner_puzzle_hash@,
            delegated_puzzles: self.delegated_puzzles@.map_values(|d: DelegatedPuzzle| d@),
        }
    }
}

impl DataStoreInfoV {
    /// Hashes are 32 bytes and every delegated puzzle is well-formed.
    pub open spec fn wf(self) -> bool {
        self.launcher_id.len() == 32 && self.owner_puzzle_hash.len() == 32 && self.metadata.wf()
            && forall|i: int|
            0 <= i < self.delegated_puzzles.len() ==> (#[trigger] self.delegated_puzzles[i]).wf()
    }
}

/// The live handle: the current unspent coin, its continuity proof and
/// the logical state.
#[derive(Debug)]
pub struct DataStore {
    pub coin: Coin,
    pub proof: Proof,
    pub info: DataStoreInfo,
}

/// The mathematical shape of the live handle.
pub struct DataStoreV {
    pub coin: CoinV,
    pub proof: ProofV,
    pub info: DataStoreInfoV,
}

impl View for DataStore {
    type V = DataStoreV;

    open spec fn view(&self) -> DataStoreV {
        DataStoreV { coin: self.coin@, proof: self.proof@, info: self.info@ }
    }
}

/// The merkle leaf an authorized spend path commits as: an admin's
/// inner puzzle hash stands alone, a writer's is wrapped by the writer
/// filter, an oracle's is its announcement puzzle's address.
pub open spec fn dp_leaf_hash(dp: DelegatedPuzzleV) -> Seq<u8> {
    match dp {
        DelegatedPuzzleV::Admin(h) => h,
        DelegatedPuzzleV::Writer(h) => curry_hash(writer_mod_hash(), seq![h]),
        DelegatedPuzzleV::Oracle(ph, fee) => tree_hash_of(oracle_puzzle(ph, fee)),
    }
}

/// The authorization set's leaves, in order.
pub open spec fn dp_leaves(dps: Seq<DelegatedPuzzleV>) -> Seq<Seq<u8>> {
    dps.map_values(|d: DelegatedPuzzleV| dp_leaf_hash(d))
}

/// Computes one merkle leaf.
pub fn dp_leaf(dp: &DelegatedPuzzle) -> (r: Vec<u8>)
    ensures
        r@ == dp_leaf_hash(dp@),
{
    match dp {
        DelegatedPuzzle::Admin(h) => copy_bytes(h),
        DelegatedPuzzle::Writer(h) => {
            let wmod = writer_mod_node();
            let wmh = tree_hash(&wmod);
            let mut arg_hashes: Vec<Vec<u8>> = Vec::new();
            arg_hashes.push(copy_bytes(h));
            proof {
                assert(arg_hashes@.map_values(|x: Vec<u8>| x@) =~= seq![h@]);
            }
            crate::curry::curry_hash_exec(&wmh, &arg_hashes)
        },
        DelegatedPuzzle::Oracle(ph, fee) => {
            let n = oracle_puzzle_node(ph, *fee);
            tree_hash(&n)
        },
    }
}

/// Builds the authorization set's merkle tree.
pub fn get_merkle_tree(delegated_puzzles: &Vec<DelegatedPuzzle>) -> (r: MerkleTree)
    ensures
        r.leaves@.map_values(|l: Vec<u8>| l@) == dp_leaves(
            delegated_puzzles@.map_values(|d: DelegatedPuzzle| d@),
        ),
{
    let ghost dpsv = delegated_puzzles@.map_values(|d: DelegatedPuzzle| d@);
    let mut leaves: Vec<Vec<u8>> = Vec::new();
    let mut i: usize = 0;
    while i < delegated_puzzles.len()
        invariant
            i <= delegated_puzzles@.len(),
            dpsv == delegated_puzzles@.map_values(|d: DelegatedPuzzle| d@),
            dpsv.len() == delegated_puzzles@.len(),
            leaves@.len() == i,
            forall|j: int| 0 <= j < i ==> #[trigger] leaves@[j]@ == dp_leaf_hash(dpsv[j]),
        decreases delegated_puzzles@.len() - i,
    {
        proof {
            assert(dpsv[i as int] == delegated_puzzles@[i as int]@);
        }
        leaves.push(dp_leaf(&delegated_puzzles[i]));
        i += 1;
    }
    proof {
        assert(leaves@.map_values(|l: Vec<u8>| l@) =~= dp_leaves(dpsv));
    }
    MerkleTree::new(leaves)
}

/// The state layer's inner puzzle hash implied by the logical state:
/// the owner's hash alone, or the delegation layer's address over the
/// owner and the authorization set's root.
pub open spec fn info_inner_puzzle_hash(info: DataStoreInfoV) -> Seq<u8> {
    if info.delegated_puzzles.len() == 0 {
        info.owner_puzzle_hash
    } else {
        delegation_puzzle_hash(
            info.launcher_id,
            info.owner_puzzle_hash,
            merkle_root(dp_leaves(info.delegated_puzzles)),
        )
    }
}

/// A membership proof written as a solution value: the path integer
/// paired with the sibling list.
pub open spec fn merkle_proof_node(path: Seq<bool>, sibs: Seq<Seq<u8>>) -> NodeV {
    NodeV::cons(
        NodeV::int_atom(path_value(path) as u64),
        NodeV::list(sibs.map_values(|h: Seq<u8>| NodeV::Atom(h))),
    )
}

/// Writes a membership proof as a solution value; fails only on a
/// proof deeper than 64 levels, which no reachable set produces.
pub fn merkle_proof_to_node(pf: &MerkleProof) -> (r: Result<Node, DriverError>)
    ensures
        match r {
            Ok(n) => n@ == merkle_proof_node(pf.path@, pf.hashes@.map_values(|h: Vec<u8>| h@))
                && path_value(pf.path@) <= u64::MAX,
            Err(_) => pf.path@.len() > 63,
        },
{
    let path_int = match path_to_u64(&pf.path) {
        Some(v) => v,
        None => {
            return Err(DriverError::Serialization);
        },
    };
    let mut items: Vec<Node> = Vec::new();
    let mut i: usize = 0;
    while i < pf.hashes.len()
        invariant
            i <= pf.hashes@.len(),
            items@.len() == i,
            forall|j: int| 0 <= j < i ==> #[trigger] items@[j]@ == NodeV::Atom(pf.hashes@[j]@),
        decreases pf.hashes@.len() - i,
    {
        items.push(Node::Atom(copy_bytes(&pf.hashes[i])));
        i += 1;
    }
    proof {
        assert(items@.map_values(|n: Node| n@) =~= pf.hashes@.map_values(
            |h: Vec<u8>| h@,
        ).map_values(|h: Seq<u8>| NodeV::Atom(h)));
    }
    Ok(Node::pair(Node::from_u64(path_int), Node::list(items)))
}

/// The singleton layer's solution: continuity proof, spent amount,
/// inner solution.
pub open spec fn singleton_solution(p: ProofV, amount: u64, inner_solution: NodeV) -> NodeV {
    NodeV::list(seq![proof_node(p), NodeV::int_atom(amount), inner_solution])
}

/// The state layer's solution: the inner solution alone.
pub open spec fn state_solution(inner_solution: NodeV) -> NodeV {
    NodeV::list(seq![inner_solution])
}

/// The delegation layer's solution: the exercised puzzle's membership
/// proof, its reveal, and its solution.
pub open spec fn delegation_solution(proof: NodeV, reveal: NodeV, solution: NodeV) -> NodeV {
    NodeV::list(seq![proof, reveal, solution])
}

/// The state layer's inner puzzle for a spend: the exercised inner
/// puzzle directly, or the delegation layer when the object carries an
/// authorization set.
pub open spec fn object_inner_puzzle(info: DataStoreInfoV, inner: NodeV) -> NodeV {
    if info.delegated_puzzles.len() == 0 {
        inner
    } else {
        delegation_puzzle(
            info.launcher_id,
            info.owner_puzzle_hash,
            merkle_root(dp_leaves(info.delegated_puzzles)),
        )
    }
}

/// The whole puzzle an object's coin carries, around an inner puzzle.
pub open spec fn object_puzzle(info: DataStoreInfoV, inner: NodeV) -> NodeV {
    singleton_top(
        info.launcher_id,
        state_layer_puzzle(
            metadata_node(info.metadata),
            crate::puzzles::metadata_updater_hash(),
            object_inner_puzzle(info, inner),
        ),
    )
}

/// Builds the nested solution around an inner solution.
fn build_solution(p: &Proof, amount: u64, inner_solution: Node) -> (r: Node)
    ensures
        r@ == singleton_solution(p@, amount, state_solution(inner_solution@)),
{
    let ghost innerv = inner_solution@;
    let mut state_items: Vec<Node> = Vec::new();
    state_items.push(inner_solution);
    proof {
        assert(state_items@.map_values(|n: Node| n@) =~= seq![innerv]);
    }
    let state_sol = Node::list(state_items);
    let mut items: Vec<Node> = Vec::new();
    items.push(p.to_node());
    items.push(Node::from_u64(amount));
    items.push(state_sol);
    proof {
        assert(items@.map_values(|n: Node| n@) =~= seq![
            proof_node(p@),
            NodeV::int_atom(amount),
            state_solution(innerv),
        ]);
    }
    Node::list(items)
}

/// Reads a singleton solution: continuity proof, amount, inner
/// solution.
pub open spec fn parse_singleton_solution_v(s: NodeV) -> Option<(NodeV, u64, NodeV)> {
    match s.as_list() {
        Some(items) => if items.len() == 3 {
            match items[1] {
                NodeV::Atom(ab) => match crate::intbytes::atom_u64(ab) {
                    Some(amount) => Some((items[0], amount, items[2])),
                    None => None,
                },
                NodeV::Pair(_, _) => None,
            }
        } else {
            None
        },
        None => None,
    }
}

/// Reads a state layer solution: the inner solution alone.
pub open spec fn parse_state_solution_v(s: NodeV) -> Option<NodeV> {
    match s.as_list() {
        Some(items) => if items.len() == 1 {
            Some(items[0])
        } else {
            None
        },
        None => None,
    }
}

/// Reads a delegation layer solution: membership proof, delegated
/// puzzle reveal, its solution.
pub open spec fn parse_delegation_solution_v(s: NodeV) -> Option<(NodeV, NodeV, NodeV)> {
    match s.as_list() {
        Some(items) => if items.len() == 3 {
            Some((items[0], items[1], items[2]))
        } else {
            None
        },
        None => None,
    }
}

/// Reads a launcher solution: the full singleton puzzle hash, the
/// amount, and the key/value list.
pub open spec fn parse_launcher_solution_v(s: NodeV) -> Option<(Seq<u8>, u64, NodeV)> {
    match s.as_list() {
        Some(items) => if items.len() == 3 {
            match (items[0], items[1]) {
                (NodeV::Atom(sph), NodeV::Atom(ab)) => if sph.len() == 32 {
                    match crate::intbytes::atom_u64(ab) {
                        Some(amount) => Some((sph, amount, items[2])),
                        None => None,
                    }
                } else {
                    None
                },
                _ => None,
            }
        } else {
            None
        },
        None => None,
    }
}

fn parse_list_3(s: &Node) -> (r: Option<(Node, Node, Node)>)
    ensures
        match r {
            Some(t) => s@.as_list() == Some(seq![t.0@, t.1@, t.2@]),
            None => (match s@.as_list() {
                Some(items) => items.len() != 3,
                None => true,
            }),
        },
{
    let items = match crate::node::as_list_exec(s) {
        Some(items) => items,
        None => {
            return None;
        },
    };
    let ghost itemsv = items@.map_values(|x: Node| x@);
    if items.len() != 3 {
        return None;
    }
    let mut items = items;
    let c = items.pop().unwrap();
    let b = items.pop().unwrap();
    let a = items.pop().unwrap();
    proof {
        assert(c@ == itemsv[2] && b@ == itemsv[1] && a@ == itemsv[0]);
        assert(itemsv =~= seq![a@, b@, c@]);
    }
    Some((a, b, c))
}

fn parse_singleton_solution(s: &Node) -> (r: Option<(Node, u64, Node)>)
    ensures
        match r {
            Some(t) => parse_singleton_solution_v(s@) == Some((t.0@, t.1, t.2@)),
            None => parse_singleton_solution_v(s@) is None,
        },
{
    let (p, amt_node, inner) = match parse_list_3(s) {
        Some(t) => t,
        None => {
            return None;
        },
    };
    match &amt_node {
        Node::Atom(ab) => match crate::intbytes::bytes_to_u64(ab) {
            Some(amount) => Some((p, amount, inner)),
            None => None,
        },
        Node::Pair(_, _) => None,
    }
}

fn parse_state_solution(s: &Node) -> (r: Option<Node>)
    ensures
        match r {
            Some(t) => parse_state_solution_v(s@) == Some(t@),
            None => parse_state_solution_v(s@) is None,
        },
{
    let items = match crate::node::as_list_exec(s) {
        Some(items) => items,
        None => {
            return None;
        },
    };
    let ghost itemsv = items@.map_values(|x: Node| x@);
    if items.len() != 1 {
        return None;
    }
    let mut items = items;
    let a = items.pop().unwrap();
    proof {
        assert(a@ == itemsv[0]);
    }
    Some(a)
}

fn parse_launcher_solution(s: &Node) -> (r: Option<(Vec<u8>, u64, Node)>)
    ensures
        match r {
            Some(t) => parse_launcher_solution_v(s@) == Some((t.0@, t.1, t.2@)),
            None => parse_launcher_solution_v(s@) is None,
        },
{
    let (sph_node, amt_node, kv) = match parse_list_3(s) {
        Some(t) => t,
        None => {
            return None;
        },
    };
    match (&sph_node, &amt_node) {
        (Node::Atom(sph), Node::Atom(ab)) => {
            if sph.len() != 32 {
                return None;
            }
            match crate::intbytes::bytes_to_u64(ab) {
                Some(amount) => Some((copy_bytes(sph), amount, kv)),
                None => None,
            }
        },
        _ => None,
    }
}

/// The last odd-amount coin creation in a condition list, the
/// singleton-continuity signal.
pub open spec fn last_odd_create(conds: Seq<ConditionV>) -> Option<crate::conditions::CreateCoinV>
    decreases conds.len(),
{
    if conds.len() == 0 {
        None
    } else {
        match conds.last() {
            ConditionV::CreateCoin(cc) => if cc.amount % 2 == 1 {
                Some(cc)
            } else {
                last_odd_create(conds.drop_last())
            },
            _ => last_odd_create(conds.drop_last()),
        }
    }
}

/// The last metadata-update instruction in a condition list.
pub open spec fn last_new_metadata(conds: Seq<ConditionV>) -> Option<
    crate::conditions::NewMetadataV,
>
    decreases conds.len(),
{
    if conds.len() == 0 {
        None
    } else {
        match conds.last() {
            ConditionV::NewMetadata(nm) => Some(nm),
            _ => last_new_metadata(conds.drop_last()),
        }
    }
}

/// The first odd-amount coin creation in a condition list.
pub open spec fn first_odd_create(conds: Seq<ConditionV>) -> Option<crate::conditions::CreateCoinV>
    decreases conds.len(),
{
    if conds.len() == 0 {
        None
    } else {
        match conds.first() {
            ConditionV::CreateCoin(cc) => if cc.amount % 2 == 1 {
                Some(cc)
            } else {
                first_odd_create(conds.drop_first())
            },
            _ => first_odd_create(conds.drop_first()),
        }
    }
}

fn scan_last_odd_create(conds: &Vec<crate::conditions::Condition>) -> (r: Option<
    crate::conditions::CreateCoin,
>)
    ensures
        match r {
            Some(cc) => last_odd_create(conds@.map_values(|c: crate::conditions::Condition| c@))
                == Some(cc@),
            None => last_odd_create(
                conds@.map_values(|c: crate::conditions::Condition| c@),
            ) is None,
        },
{
    let ghost condsv = conds@.map_values(|c: crate::conditions::Condition| c@);
    let mut i: usize = conds.len();
    proof {
        assert(condsv.take(condsv.len() as int) =~= condsv);
    }
    while i > 0
        invariant
            i <= conds@.len(),
            condsv == conds@.map_values(|c: crate::conditions::Condition| c@),
            condsv.len() == conds@.len(),
            last_odd_create(condsv) == last_odd_create(condsv.take(i as int)),
        decreases i,
    {
        i -= 1;
        proof {
            assert(condsv[i as int] == conds@[i as int]@);
            assert(condsv.take(i as int + 1).last() == condsv[i as int]);
            assert(condsv.take(i as int + 1).drop_last() =~= condsv.take(i as int));
        }
        match &conds[i] {
            crate::conditions::Condition::CreateCoin(cc) => {
                if cc.amount % 2 == 1 {
                    return Some(
                        crate::conditions::CreateCoin {
                            puzzle_hash: copy_bytes(&cc.puzzle_hash),
                            amount: cc.amount,
                            memos: copy_memos(&cc.memos),
                        },
                    );
                }
            },
            _ => {},
        }
    }
    proof {
        assert(condsv.take(0) =~= Seq::<ConditionV>::empty());
    }
    None
}

fn scan_last_new_metadata(conds: &Vec<crate::conditions::Condition>) -> (r: Option<
    crate::conditions::NewMetadata,
>)
    ensures
        match r {
            Some(nm) => last_new_metadata(conds@.map_values(|c: crate::conditions::Condition| c@))
                == Some(nm@),
            None => last_new_metadata(
                conds@.map_values(|c: crate::conditions::Condition| c@),
            ) is None,
        },
{
    let ghost condsv = conds@.map_values(|c: crate::conditions::Condition| c@);
    let mut i: usize = conds.len();
    proof {
        assert(condsv.take(condsv.len() as int) =~= condsv);
    }
    while i > 0
        invariant
            i <= conds@.len(),
            condsv == conds@.map_values(|c: crate::conditions::Condition| c@),
            condsv.len() == conds@.len(),
            last_new_metadata(condsv) == last_new_metadata(condsv.take(i as int)),
        decreases i,
    {
        i -= 1;
        proof {
            assert(condsv[i as int] == conds@[i as int]@);
            assert(condsv.take(i as int + 1).last() == condsv[i as int]);
            assert(condsv.take(i as int + 1).drop_last() =~= condsv.take(i as int));
        }
        match &conds[i] {
            crate::conditions::Condition::NewMetadata(nm) => {
                return Some(
                    crate::conditions::NewMetadata {
                        updater_reveal: nm.updater_reveal.duplicate(),
                        updater_solution: nm.updater_solution.duplicate(),
                    },
                );
            },
            _ => {},
        }
    }
    proof {
        assert(condsv.take(0) =~= Seq::<ConditionV>::empty());
    }
    None
}

fn scan_first_odd_create(conds: &Vec<crate::conditions::Condition>) -> (r: Option<
    crate::conditions::CreateCoin,
>)
    ensures
        match r {
            Some(cc) => first_odd_create(conds@.map_values(|c: crate::conditions::Condition| c@))
                == Some(cc@),
            None => first_odd_create(
                conds@.map_values(|c: crate::conditions::Condition| c@),
            ) is None,
        },
{
    let ghost condsv = conds@.map_values(|c: crate::conditions::Condition| c@);
    let mut i: usize = 0;
    proof {
        assert(condsv.skip(0) =~= condsv);
    }
    while i < conds.len()
        invariant
            i <= conds@.len(),
            condsv == conds@.map_values(|c: crate::conditions::Condition| c@),
            condsv.len() == conds@.len(),
            first_odd_create(condsv) == first_odd_create(condsv.skip(i as int)),
        decreases conds@.len() - i,
    {
        proof {
            assert(condsv[i as int] == conds@[i as int]@);
            assert(condsv.skip(i as int).first() == condsv[i as int]);
            assert(condsv.skip(i as int).drop_first() =~= condsv.skip(i as int + 1));
        }
        match &conds[i] {
            crate::conditions::Condition::CreateCoin(cc) => {
                if cc.amount % 2 == 1 {
                    return Some(
                        crate::conditions::CreateCoin {
                            puzzle_hash: copy_bytes(&cc.puzzle_hash),
                            amount: cc.amount,
                            memos: copy_memos(&cc.memos),
                        },
                    );
                }
            },
            _ => {},
        }
        i += 1;
    }
    None
}

/// A copy of a memo list.
fn copy_memos(memos: &Vec<Vec<u8>>) -> (r: Vec<Vec<u8>>)
    ensures
        r@.map_values(|m: Vec<u8>| m@) == memos@.map_values(|m: Vec<u8>| m@),
{
    let mut out: Vec<Vec<u8>> = Vec::new();
    let mut i: usize = 0;
    while i < memos.len()
        invariant
            i <= memos@.len(),
            out@.len() == i,
            forall|j: int| 0 <= j < i ==> #[trigger] out@[j]@ == memos@[j]@,
        decreases memos@.len() - i,
    {
        out.push(copy_bytes(&memos[i]));
        i += 1;
    }
    proof {
        assert(out@.map_values(|m: Vec<u8>| m@) =~= memos@.map_values(|m: Vec<u8>| m@));
    }
    out
}

/// What assembling an object from a decoded memo list yields.  No
/// memos: the fallback owner and an empty set.  Otherwise the first
/// memo must equal the launcher id.  A three-memo list whose second
/// memo equals the metadata's root hash is the legacy vanilla form:
/// the third memo is the owner.  Otherwise the second memo, if any, is
/// the owner (else the fallback), and the rest decode as the
/// authorization set.
pub open spec fn build_model(
    coin: CoinV,
    launcher_id: Seq<u8>,
    proof: ProofV,
    metadata: MetadataV,
    fallback_owner_ph: Seq<u8>,
    memos: Seq<Seq<u8>>,
) -> Result<DataStoreV, DriverError> {
    if memos.len() == 0 {
        Ok(
            DataStoreV {
                coin,
                proof,
                info: DataStoreInfoV {
                    launcher_id,
                    metadata,
                    owner_puzzle_hash: fallback_owner_ph,
                    delegated_puzzles: seq![],
                },
            },
        )
    } else if memos[0] != launcher_id {
        Err(DriverError::InvalidMemo)
    } else if memos.len() == 3 && memos[1] == metadata.root_hash {
        if memos[2].len() == 32 {
            Ok(
                DataStoreV {
                    coin,
                    proof,
                    info: DataStoreInfoV {
                        launcher_id,
                        metadata,
                        owner_puzzle_hash: memos[2],
                        delegated_puzzles: seq![],
                    },
                },
            )
        } else {
            Err(DriverError::InvalidMemo)
        }
    } else if memos.len() == 1 {
        Ok(
            DataStoreV {
                coin,
                proof,
                info: DataStoreInfoV {
                    launcher_id,
                    metadata,
                    owner_puzzle_hash: fallback_owner_ph,
                    delegated_puzzles: seq![],
                },
            },
        )
    } else if memos[1].len() != 32 {
        Err(DriverError::InvalidMemo)
    } else {
        match crate::memos::decode_dps(memos, 2) {
            Ok(dps) => Ok(
                DataStoreV {
                    coin,
                    proof,
                    info: DataStoreInfoV {
                        launcher_id,
                        metadata,
                        owner_puzzle_hash: memos[1],
                        delegated_puzzles: dps,
                    },
                },
            ),
            Err(e) => Err(e),
        }
    }
}

/// The launcher's key/value list in the current format: full
/// metadata, the state layer's inner puzzle hash, and the launch
/// memos.
#[derive(Debug)]
pub struct DLLauncherKVList {
    pub metadata: DataStoreMetadata,
    pub state_layer_inner_puzzle_hash: Vec<u8>,
    pub memos: Vec<Vec<u8>>,
}

impl DLLauncherKVList {
    /// Writes this key/value list as the launch solution carries it.
    pub fn to_node(&self) -> (r: Node)
        ensures
            r@ == NodeV::cons(
                metadata_node(self.metadata@),
                NodeV::cons(
                    NodeV::Atom(self.state_layer_inner_puzzle_hash@),
                    crate::conditions::memos_node(self.memos@.map_values(|m: Vec<u8>| m@)),
                ),
            ),
    {
        Node::pair(
            self.metadata.to_node(),
            Node::pair(
                Node::Atom(copy_bytes(&self.state_layer_inner_puzzle_hash)),
                crate::conditions::memos_to_node(&self.memos),
            ),
        )
    }
}

/// The launcher's key/value list in the legacy format: a bare root
/// hash in the metadata position.
#[derive(Debug)]
pub struct OldDLLauncherKVList {
    pub root_hash: Vec<u8>,
    pub state_layer_inner_puzzle_hash: Vec<u8>,
    pub memos: Vec<Vec<u8>>,
}

impl OldDLLauncherKVList {
    /// Writes this key/value list as the legacy launch solution
    /// carries it.
    pub fn to_node(&self) -> (r: Node)
        ensures
            r@ == NodeV::cons(
                NodeV::Atom(self.root_hash@),
                NodeV::cons(
                    NodeV::Atom(self.state_layer_inner_puzzle_hash@),
                    crate::conditions::memos_node(self.memos@.map_values(|m: Vec<u8>| m@)),
                ),
            ),
    {
        Node::pair(
            Node::Atom(copy_bytes(&self.root_hash)),
            Node::pair(
                Node::Atom(copy_bytes(&self.state_layer_inner_puzzle_hash)),
                crate::conditions::memos_to_node(&self.memos),
            ),
        )
    }
}

/// The environment the state layer hands a metadata updater: current
/// metadata, the updater's own address, the update's solution.
pub open spec fn updater_env(metadata: NodeV, updater_ph: Seq<u8>, updater_solution: NodeV) -> NodeV {
    NodeV::list(seq![metadata, NodeV::Atom(updater_ph), updater_solution])
}

/// The metadata value an update instruction yields: the first element
/// of the first element of the updater run's output.
pub open spec fn next_metadata_node(
    metadata: NodeV,
    updater_ph: Seq<u8>,
    nm: crate::conditions::NewMetadataV,
) -> Option<NodeV> {
    match crate::runner::puzzle_output(
        nm.updater_reveal,
        updater_env(metadata, updater_ph, nm.updater_solution),
    ) {
        Some(out) => match out.as_list() {
            Some(items) => if items.len() >= 1 {
                match items[0].as_list() {
                    Some(parts) => if parts.len() >= 1 {
                        Some(parts[0])
                    } else {
                        None
                    },
                    None => None,
                }
            } else {
                None
            },
            None => None,
        },
        None => None,
    }
}

/// What the delegation-layer examination of a reconstructed spend
/// yields, once the successor coin and metadata are settled: no
/// delegation layer means the inner puzzle's own hash owns the object
/// and the set empties; with one, the delegated run's first odd
/// creation decides between carrying the prior set over (none, or one
/// recreating the layer itself) and exiting to a new owner.
pub open spec fn deleg_model(
    new_coin: CoinV,
    launcher_id: Seq<u8>,
    lineage: ProofV,
    new_md: MetadataV,
    inner_puzzle: NodeV,
    inner_solution: NodeV,
    parent_dps: Seq<DelegatedPuzzleV>,
) -> Result<Option<DataStoreV>, DriverError> {
    if !crate::puzzles::is_delegation_shaped(inner_puzzle) {
        Ok(
            Some(
                DataStoreV {
                    coin: new_coin,
                    proof: lineage,
                    info: DataStoreInfoV {
                        launcher_id,
                        metadata: new_md,
                        owner_puzzle_hash: tree_hash_of(inner_puzzle),
                        delegated_puzzles: seq![],
                    },
                },
            ),
        )
    } else {
        match crate::puzzles::parse_delegation_v(inner_puzzle) {
        None => Err(DriverError::NonStandardLayer),
        Some((_lid, deleg_owner, _root)) => match parse_delegation_solution_v(inner_solution) {
            None => Err(DriverError::Serialization),
            Some((_pf, reveal, reveal_solution)) => match crate::runner::output_conditions(
                reveal,
                reveal_solution,
            ) {
                None => Err(DriverError::Eval),
                Some(conds) => match first_odd_create(conds) {
                    None => Ok(
                        Some(
                            DataStoreV {
                                coin: new_coin,
                                proof: lineage,
                                info: DataStoreInfoV {
                                    launcher_id,
                                    metadata: new_md,
                                    owner_puzzle_hash: deleg_owner,
                                    delegated_puzzles: parent_dps,
                                },
                            },
                        ),
                    ),
                    Some(cc) => if cc.puzzle_hash == tree_hash_of(inner_puzzle) {
                        Ok(
                            Some(
                                DataStoreV {
                                    coin: new_coin,
                                    proof: lineage,
                                    info: DataStoreInfoV {
                                        launcher_id,
                                        metadata: new_md,
                                        owner_puzzle_hash: deleg_owner,
                                        delegated_puzzles: parent_dps,
                                    },
                                },
                            ),
                        )
                    } else {
                        Ok(
                            Some(
                                DataStoreV {
                                    coin: new_coin,
                                    proof: lineage,
                                    info: DataStoreInfoV {
                                        launcher_id,
                                        metadata: new_md,
                                        owner_puzzle_hash: cc.puzzle_hash,
                                        delegated_puzzles: seq![],
                                    },
                                },
                            ),
                        )
                    },
                },
            },
        },
    }
    }
}

/// The singleton branch of the reverse path, after the layers and the
/// solution have been read: run the state layer's inner puzzle,
/// classify its effects, derive the successor coin from the emitted
/// continuity signal, and settle owner and authorization set.
pub open spec fn singleton_model(
    cs: CoinSpendV,
    launcher_id: Seq<u8>,
    state_puzzle: NodeV,
    md_node: NodeV,
    old_md: MetadataV,
    updater_ph: Seq<u8>,
    inner_puzzle: NodeV,
    inner_solution: NodeV,
    parent_dps: Seq<DelegatedPuzzleV>,
) -> Result<Option<DataStoreV>, DriverError> {
    match crate::runner::output_conditions(inner_puzzle, inner_solution) {
        None => Err(DriverError::Eval),
        Some(conds) => match last_odd_create(conds) {
            None => Err(DriverError::MissingChild),
            Some(cc) => match (match last_new_metadata(conds) {
                Some(nm) => next_metadata_node(md_node, updater_ph, nm),
                None => Some(md_node),
            }) {
                None => Err(DriverError::Eval),
                Some(new_md_node) => match (match last_new_metadata(conds) {
                    Some(_) => crate::metadata::parse_metadata_v(new_md_node),
                    None => Some(old_md),
                }) {
                    None => Err(DriverError::Serialization),
                    Some(new_md) => {
                        let lineage = ProofV::Lineage(
                            cs.coin.parent_coin_info,
                            tree_hash_of(state_puzzle),
                            cs.coin.amount,
                        );
                        let new_coin = CoinV {
                            parent_coin_info: coin_id_of(cs.coin),
                            puzzle_hash: crate::puzzles::singleton_puzzle_hash(
                                launcher_id,
                                crate::puzzles::state_layer_hash(
                                    tree_hash_of(metadata_node(new_md)),
                                    updater_ph,
                                    cc.puzzle_hash,
                                ),
                            ),
                            amount: cc.amount,
                        };
                        if cc.memos.len() > 1 {
                            match build_model(
                                new_coin,
                                launcher_id,
                                lineage,
                                new_md,
                                tree_hash_of(inner_puzzle),
                                cc.memos,
                            ) {
                                Ok(ds) => Ok(Some(ds)),
                                Err(e) => Err(e),
                            }
                        } else {
                            deleg_model(
                                new_coin,
                                launcher_id,
                                lineage,
                                new_md,
                                inner_puzzle,
                                inner_solution,
                                parent_dps,
                            )
                        }
                    },
                },
            },
        },
    }
}

/// The launcher branch of the reverse path: an eve creation.  The
/// key/value list carries the metadata (or, in the legacy form, a bare
/// root hash), the state layer's inner puzzle hash, and the launch
/// memos; the eve coin is derived from the declared successor.
pub open spec fn launcher_model(cs: CoinSpendV) -> Result<Option<DataStoreV>, DriverError> {
    let launcher_id = coin_id_of(cs.coin);
    let eve = ProofV::Eve(cs.coin.parent_coin_info, cs.coin.amount);
    match crate::codec::deser(cs.solution) {
        None => Err(DriverError::Serialization),
        Some(sol) => match parse_launcher_solution_v(sol) {
            None => Err(DriverError::Serialization),
            Some((sph, amount, kv)) => match kv {
                NodeV::Pair(md_or_root, rest) => match *rest {
                    NodeV::Pair(ph_node, memos_part) => match *ph_node {
                        NodeV::Atom(state_inner_ph) => if state_inner_ph.len() == 32 {
                            match crate::conditions::atoms_list(*memos_part) {
                                Some(memos) => {
                                    let new_coin = CoinV {
                                        parent_coin_info: launcher_id,
                                        puzzle_hash: sph,
                                        amount,
                                    };
                                    match *md_or_root {
                                        NodeV::Pair(_, _) => match crate::metadata::parse_metadata_v(
                                            *md_or_root,
                                        ) {
                                            Some(md) => match build_model(
                                                new_coin,
                                                launcher_id,
                                                eve,
                                                md,
                                                state_inner_ph,
                                                seq![launcher_id] + memos,
                                            ) {
                                                Ok(ds) => Ok(Some(ds)),
                                                Err(e) => Err(e),
                                            },
                                            None => Err(DriverError::Serialization),
                                        },
                                        NodeV::Atom(root) => if root.len() == 32 {
                                            match build_model(
                                                new_coin,
                                                launcher_id,
                                                eve,
                                                MetadataV::root_hash_only(root),
                                                state_inner_ph,
                                                memos,
                                            ) {
                                                Ok(ds) => Ok(Some(ds)),
                                                Err(e) => Err(e),
                                            }
                                        } else {
                                            Err(DriverError::Serialization)
                                        },
                                    }
                                },
                                None => Err(DriverError::Serialization),
                            }
                        } else {
                            Err(DriverError::Serialization)
                        },
                        NodeV::Pair(_, _) => Err(DriverError::Serialization),
                    },
                    NodeV::Atom(_) => Err(DriverError::Serialization),
                },
                NodeV::Atom(_) => Err(DriverError::Serialization),
            },
        },
    }
}

/// The whole reverse path: the launcher branch on the well-known
/// launcher address; otherwise probe the singleton and state layers
/// (a mismatch means the coin is not this protocol's), then
/// reconstruct through the singleton branch.
pub open spec fn from_spend_model(cs: CoinSpendV, parent_dps: Seq<DelegatedPuzzleV>) -> Result<
    Option<DataStoreV>,
    DriverError,
> {
    if cs.coin.puzzle_hash == crate::puzzles::launcher_puzzle_hash() {
        launcher_model(cs)
    } else {
        match crate::codec::deser(cs.puzzle_reveal) {
            None => Err(DriverError::Serialization),
            Some(puzzle) => match crate::puzzles::parse_singleton_v(puzzle) {
                None => Ok(None),
                Some((launcher_id, state_puzzle)) => match crate::puzzles::parse_state_layer_v(
                    state_puzzle,
                ) {
                    None => Ok(None),
                    Some((md_node, updater_ph, inner_puzzle)) => match crate::metadata::parse_metadata_v(
                        md_node,
                    ) {
                        None => Err(DriverError::Serialization),
                        Some(old_md) => match crate::codec::deser(cs.solution) {
                            None => Err(DriverError::Serialization),
                            Some(sol) => match parse_singleton_solution_v(sol) {
                                None => Err(DriverError::Serialization),
                                Some((_pf, _amt, ssol)) => match parse_state_solution_v(ssol) {
                                    None => Err(DriverError::Serialization),
                                    Some(inner_solution) => singleton_model(
                                        cs,
                                        launcher_id,
                                        state_puzzle,
                                        md_node,
                                        old_md,
                                        updater_ph,
                                        inner_puzzle,
                                        inner_solution,
                                        parent_dps,
                                    ),
                                },
                            },
                        },
                    },
                },
            },
        }
    }
}

/// The coin-creation condition an owner emits to recreate the object:
/// with an empty new set, the successor keeps a delegation layer over
/// the (empty) set; otherwise the new inner puzzle hash stands alone.
/// The memos carry the full manifest when asked, else only the
/// launcher id.
pub open spec fn owner_create_coin_model(
    launcher_id: Seq<u8>,
    new_inner_puzzle_hash: Seq<u8>,
    new_dps: Seq<DelegatedPuzzleV>,
    hint_delegated_puzzles: bool,
) -> ConditionV {
    let puzzle_hash = if new_dps.len() == 0 {
        delegation_puzzle_hash(launcher_id, new_inner_puzzle_hash, merkle_root(dp_leaves(new_dps)))
    } else {
        new_inner_puzzle_hash
    };
    ConditionV::CreateCoin(
        crate::conditions::CreateCoinV {
            puzzle_hash,
            amount: 1,
            memos: if hint_delegated_puzzles {
                crate::memos::recreation_memos(launcher_id, new_inner_puzzle_hash, new_dps)
            } else {
                seq![launcher_id]
            },
        },
    )
}

/// The updater output that commits new metadata: the new value and the
/// updater's own address, with no extra conditions.
pub open spec fn new_metadata_output_node(md: MetadataV) -> NodeV {
    NodeV::list(
        seq![
            NodeV::list(
                seq![metadata_node(md), NodeV::Atom(crate::puzzles::metadata_updater_hash())],
            ),
            NodeV::nil(),
        ],
    )
}

/// Parsing inverts construction for the singleton solution.
pub proof fn lemma_singleton_solution_roundtrip(p: ProofV, amount: u64, inner: NodeV)
    ensures
        parse_singleton_solution_v(singleton_solution(p, amount, inner)) == Some(
            (proof_node(p), amount, inner),
        ),
{
    crate::node::lemma_as_list_list(seq![proof_node(p), NodeV::int_atom(amount), inner]);
    crate::intbytes::lemma_int_bytes_roundtrip(amount);
}

/// Parsing inverts construction for the state layer solution.
pub proof fn lemma_state_solution_roundtrip(inner: NodeV)
    ensures
        parse_state_solution_v(state_solution(inner)) == Some(inner),
{
    crate::node::lemma_as_list_list(seq![inner]);
}

/// Parsing inverts construction for the delegation layer solution.
pub proof fn lemma_delegation_solution_roundtrip(pf: NodeV, reveal: NodeV, solution: NodeV)
    ensures
        parse_delegation_solution_v(delegation_solution(pf, reveal, solution)) == Some(
            (pf, reveal, solution),
        ),
{
    crate::node::lemma_as_list_list(seq![pf, reveal, solution]);
}

/// A spend that recreates the object without announcing a new state:
/// its continuity signal creates one odd coin whose memo list holds at
/// most the launcher id, and it carries no metadata update.
pub open spec fn plain_recreation(conds: Seq<ConditionV>, cc: crate::conditions::CreateCoinV) -> bool {
    &&& last_odd_create(conds) == Some(cc)
    &&& last_new_metadata(conds) is None
    &&& cc.memos.len() <= 1
}

/// Round trip, no authorization set: reconstructing the spend record
/// that `spend` builds for an object without delegated puzzles yields
/// exactly the successor predicted from the object and the effects the
/// inner puzzle emitted — same identity, recomputed successor coin, a
/// lineage proof onto the spent coin, ownership passing to the emitted
/// successor inner puzzle.
pub proof fn lemma_round_trip_plain(
    o: DataStoreV,
    p: NodeV,
    s: NodeV,
    cs: CoinSpendV,
    conds: Seq<ConditionV>,
    cc: crate::conditions::CreateCoinV,
    parent_dps: Seq<DelegatedPuzzleV>,
)
    requires
        o.info.wf(),
        o.info.delegated_puzzles.len() == 0,
        cs.coin == o.coin,
        o.coin.puzzle_hash != crate::puzzles::launcher_puzzle_hash(),
        crate::codec::serializable(object_puzzle(o.info, p)),
        cs.puzzle_reveal == crate::codec::ser(object_puzzle(o.info, p)),
        crate::codec::serializable(
            singleton_solution(o.proof, o.coin.amount, state_solution(s)),
        ),
        cs.solution == crate::codec::ser(
            singleton_solution(o.proof, o.coin.amount, state_solution(s)),
        ),
        crate::runner::output_conditions(p, s) == Some(conds),
        plain_recreation(conds, cc),
        !crate::puzzles::is_delegation_shaped(p),
    ensures
        from_spend_model(cs, parent_dps) == Ok::<Option<DataStoreV>, DriverError>(
            Some(
                DataStoreV {
                    coin: CoinV {
                        parent_coin_info: coin_id_of(o.coin),
                        puzzle_hash: crate::puzzles::singleton_puzzle_hash(
                            o.info.launcher_id,
                            crate::puzzles::state_layer_hash(
                                tree_hash_of(metadata_node(o.info.metadata)),
                                crate::puzzles::metadata_updater_hash(),
                                cc.puzzle_hash,
                            ),
                        ),
                        amount: cc.amount,
                    },
                    proof: ProofV::Lineage(
                        o.coin.parent_coin_info,
                        tree_hash_of(
                            crate::puzzles::state_layer_puzzle(
                                metadata_node(o.info.metadata),
                                crate::puzzles::metadata_updater_hash(),
                                p,
                            ),
                        ),
                        o.coin.amount,
                    ),
                    info: DataStoreInfoV {
                        launcher_id: o.info.launcher_id,
                        metadata: o.info.metadata,
                        owner_puzzle_hash: tree_hash_of(p),
                        delegated_puzzles: seq![],
                    },
                },
            ),
        ),
{
    let puzzle = object_puzzle(o.info, p);
    let sol = singleton_solution(o.proof, o.coin.amount, state_solution(s));
    crate::codec::lemma_ser_deser_roundtrip(puzzle);
    crate::codec::lemma_ser_deser_roundtrip(sol);
    crate::puzzles::lemma_parse_singleton_roundtrip(
        o.info.launcher_id,
        crate::puzzles::state_layer_puzzle(
            metadata_node(o.info.metadata),
            crate::puzzles::metadata_updater_hash(),
            p,
        ),
    );
    crate::puzzles::lemma_parse_state_roundtrip(
        metadata_node(o.info.metadata),
        crate::puzzles::metadata_updater_hash(),
        p,
    );
    crate::metadata::lemma_metadata_roundtrip(o.info.metadata);
    lemma_singleton_solution_roundtrip(o.proof, o.coin.amount, state_solution(s));
    lemma_state_solution_roundtrip(s);
}

/// Round trip under a metadata update: as the plain round trip, but
/// the spend carries an update instruction, and the successor's
/// metadata — and the successor coin's address — follow the value the
/// updater run yields instead of carrying the old metadata over.
pub proof fn lemma_round_trip_with_update(
    o: DataStoreV,
    p: NodeV,
    s: NodeV,
    cs: CoinSpendV,
    conds: Seq<ConditionV>,
    cc: crate::conditions::CreateCoinV,
    nm: crate::conditions::NewMetadataV,
    new_md_node: NodeV,
    new_md: MetadataV,
    parent_dps: Seq<DelegatedPuzzleV>,
)
    requires
        o.info.wf(),
        o.info.delegated_puzzles.len() == 0,
        cs.coin == o.coin,
        o.coin.puzzle_hash != crate::puzzles::launcher_puzzle_hash(),
        crate::codec::serializable(object_puzzle(o.info, p)),
        cs.puzzle_reveal == crate::codec::ser(object_puzzle(o.info, p)),
        crate::codec::serializable(
            singleton_solution(o.proof, o.coin.amount, state_solution(s)),
        ),
        cs.solution == crate::codec::ser(
            singleton_solution(o.proof, o.coin.amount, state_solution(s)),
        ),
        crate::runner::output_conditions(p, s) == Some(conds),
        last_odd_create(conds) == Some(cc),
        cc.memos.len() <= 1,
        last_new_metadata(conds) == Some(nm),
        next_metadata_node(
            metadata_node(o.info.metadata),
            crate::puzzles::metadata_updater_hash(),
            nm,
        ) == Some(new_md_node),
        crate::metadata::parse_metadata_v(new_md_node) == Some(new_md),
        !crate::puzzles::is_delegation_shaped(p),
    ensures
        from_spend_model(cs, parent_dps) == Ok::<Option<DataStoreV>, DriverError>(
            Some(
                DataStoreV {
                    coin: CoinV {
                        parent_coin_info: coin_id_of(o.coin),
                        puzzle_hash: crate::puzzles::singleton_puzzle_hash(
                            o.info.launcher_id,
                            crate::puzzles::state_layer_hash(
                                tree_hash_of(metadata_node(new_md)),
                                crate::puzzles::metadata_updater_hash(),
                                cc.puzzle_hash,
                            ),
                        ),
                        amount: cc.amount,
                    },
                    proof: ProofV::Lineage(
                        o.coin.parent_coin_info,
                        tree_hash_of(
                            crate::puzzles::state_layer_puzzle(
                                metadata_node(o.info.metadata),
                                crate::puzzles::metadata_updater_hash(),
                                p,
                            ),
                        ),
                        o.coin.amount,
                    ),
                    info: DataStoreInfoV {
                        launcher_id: o.info.launcher_id,
                        metadata: new_md,
                        owner_puzzle_hash: tree_hash_of(p),
                        delegated_puzzles: seq![],
                    },
                },
            ),
        ),
{
    let puzzle = object_puzzle(o.info, p);
    let sol = singleton_solution(o.proof, o.coin.amount, state_solution(s));
    crate::codec::lemma_ser_deser_roundtrip(puzzle);
    crate::codec::lemma_ser_deser_roundtrip(sol);
    crate::puzzles::lemma_parse_singleton_roundtrip(
        o.info.launcher_id,
        crate::puzzles::state_layer_puzzle(
            metadata_node(o.info.metadata),
            crate::puzzles::metadata_updater_hash(),
            p,
        ),
    );
    crate::puzzles::lemma_parse_state_roundtrip(
        metadata_node(o.info.metadata),
        crate::puzzles::metadata_updater_hash(),
        p,
    );
    crate::metadata::lemma_metadata_roundtrip(o.info.metadata);
    lemma_singleton_solution_roundtrip(o.proof, o.coin.amount, state_solution(s));
    lemma_state_solution_roundtrip(s);
}

/// Round trip with an authorization set present: reconstructing the
/// spend record that `spend` builds for an object with delegated
/// puzzles yields the predicted successor.  The delegated run's first
/// odd creation decides the outcome: none, or one recreating the
/// delegation layer itself, carries the caller's prior set over; any
/// other hash exits the delegation layer, the emitted hash becoming
/// the owner and the set emptying.
pub proof fn lemma_round_trip_delegated(
    o: DataStoreV,
    p: NodeV,
    s: NodeV,
    pfn: NodeV,
    cs: CoinSpendV,
    conds: Seq<ConditionV>,
    cc: crate::conditions::CreateCoinV,
    conds2: Seq<ConditionV>,
    parent_dps: Seq<DelegatedPuzzleV>,
)
    requires
        o.info.wf(),
        o.info.delegated_puzzles.len() > 0,
        cs.coin == o.coin,
        o.coin.puzzle_hash != crate::puzzles::launcher_puzzle_hash(),
        crate::codec::serializable(object_puzzle(o.info, p)),
        cs.puzzle_reveal == crate::codec::ser(object_puzzle(o.info, p)),
        crate::codec::serializable(
            singleton_solution(
                o.proof,
                o.coin.amount,
                state_solution(delegation_solution(pfn, p, s)),
            ),
        ),
        cs.solution == crate::codec::ser(
            singleton_solution(
                o.proof,
                o.coin.amount,
                state_solution(delegation_solution(pfn, p, s)),
            ),
        ),
        crate::runner::output_conditions(
            object_inner_puzzle(o.info, p),
            delegation_solution(pfn, p, s),
        ) == Some(conds),
        plain_recreation(conds, cc),
        crate::runner::output_conditions(p, s) == Some(conds2),
    ensures
        from_spend_model(cs, parent_dps) == Ok::<Option<DataStoreV>, DriverError>(
            Some(
                DataStoreV {
                    coin: CoinV {
                        parent_coin_info: coin_id_of(o.coin),
                        puzzle_hash: crate::puzzles::singleton_puzzle_hash(
                            o.info.launcher_id,
                            crate::puzzles::state_layer_hash(
                                tree_hash_of(metadata_node(o.info.metadata)),
                                crate::puzzles::metadata_updater_hash(),
                                cc.puzzle_hash,
                            ),
                        ),
                        amount: cc.amount,
                    },
                    proof: ProofV::Lineage(
                        o.coin.parent_coin_info,
                        tree_hash_of(
                            crate::puzzles::state_layer_puzzle(
                                metadata_node(o.info.metadata),
                                crate::puzzles::metadata_updater_hash(),
                                object_inner_puzzle(o.info, p),
                            ),
                        ),
                        o.coin.amount,
                    ),
                    info: DataStoreInfoV {
                        launcher_id: o.info.launcher_id,
                        metadata: o.info.metadata,
                        owner_puzzle_hash: (match first_odd_create(conds2) {
                            None => o.info.owner_puzzle_hash,
                            Some(cc2) => if cc2.puzzle_hash == tree_hash_of(
                                object_inner_puzzle(o.info, p),
                            ) {
                                o.info.owner_puzzle_hash
                            } else {
                                cc2.puzzle_hash
                            },
                        }),
                        delegated_puzzles: (match first_odd_create(conds2) {
                            None => parent_dps,
                            Some(cc2) => if cc2.puzzle_hash == tree_hash_of(
                                object_inner_puzzle(o.info, p),
                            ) {
                                parent_dps
                            } else {
                                seq![]
                            },
                        }),
                    },
                },
            ),
        ),
{
    let inner = object_inner_puzzle(o.info, p);
    let root = merkle_root(dp_leaves(o.info.delegated_puzzles));
    let puzzle = object_puzzle(o.info, p);
    let sol = singleton_solution(
        o.proof,
        o.coin.amount,
        state_solution(delegation_solution(pfn, p, s)),
    );
    crate::codec::lemma_ser_deser_roundtrip(puzzle);
    crate::codec::lemma_ser_deser_roundtrip(sol);
    crate::puzzles::lemma_parse_singleton_roundtrip(
        o.info.launcher_id,
        crate::puzzles::state_layer_puzzle(
            metadata_node(o.info.metadata),
            crate::puzzles::metadata_updater_hash(),
            inner,
        ),
    );
    crate::puzzles::lemma_parse_state_roundtrip(
        metadata_node(o.info.metadata),
        crate::puzzles::metadata_updater_hash(),
        inner,
    );
    crate::metadata::lemma_metadata_roundtrip(o.info.metadata);
    lemma_singleton_solution_roundtrip(
        o.proof,
        o.coin.amount,
        state_solution(delegation_solution(pfn, p, s)),
    );
    lemma_state_solution_roundtrip(delegation_solution(pfn, p, s));
    crate::puzzles::lemma_parse_delegation_roundtrip(
        o.info.launcher_id,
        o.info.owner_puzzle_hash,
        root,
    );
    lemma_delegation_solution_roundtrip(pfn, p, s);
}

/// Launch reconstruction with no hints: assembling from the implied
/// launcher-id memo alone gives the fallback owner and an empty
/// authorization set.
pub proof fn lemma_launch_no_hints(
    coin: CoinV,
    launcher_id: Seq<u8>,
    proof: ProofV,
    metadata: MetadataV,
    fallback_owner_ph: Seq<u8>,
)
    ensures
        build_model(coin, launcher_id, proof, metadata, fallback_owner_ph, seq![launcher_id])
            == Ok::<DataStoreV, DriverError>(
            DataStoreV {
                coin,
                proof,
                info: DataStoreInfoV {
                    launcher_id,
                    metadata,
                    owner_puzzle_hash: fallback_owner_ph,
                    delegated_puzzles: seq![],
                },
            },
        ),
{
}

/// Launch reconstruction from the legacy two-memo form: the root-hash
/// metadata is rebuilt from the bare root and the owner is the second
/// memo.
pub proof fn lemma_launch_legacy_two_memo(
    coin: CoinV,
    launcher_id: Seq<u8>,
    proof: ProofV,
    root_hash: Seq<u8>,
    fallback_owner_ph: Seq<u8>,
    owner: Seq<u8>,
)
    requires
        owner.len() == 32,
    ensures
        build_model(
            coin,
            launcher_id,
            proof,
            MetadataV::root_hash_only(root_hash),
            fallback_owner_ph,
            seq![launcher_id, owner],
        ) == Ok::<DataStoreV, DriverError>(
            DataStoreV {
                coin,
                proof,
                info: DataStoreInfoV {
                    launcher_id,
                    metadata: MetadataV::root_hash_only(root_hash),
                    owner_puzzle_hash: owner,
                    delegated_puzzles: seq![],
                },
            },
        ),
{
}

/// Fatal on no continuity coin: a state-layer inner run that emits no
/// odd-amount coin creation reconstructs to the missing-child error,
/// never to an object.
pub proof fn lemma_missing_child(
    cs: CoinSpendV,
    launcher_id: Seq<u8>,
    state_puzzle: NodeV,
    md_node: NodeV,
    old_md: MetadataV,
    updater_ph: Seq<u8>,
    inner_puzzle: NodeV,
    inner_solution: NodeV,
    parent_dps: Seq<DelegatedPuzzleV>,
    conds: Seq<ConditionV>,
)
    requires
        crate::runner::output_conditions(inner_puzzle, inner_solution) == Some(conds),
        last_odd_create(conds) is None,
    ensures
        singleton_model(
            cs,
            launcher_id,
            state_puzzle,
            md_node,
            old_md,
            updater_ph,
            inner_puzzle,
            inner_solution,
            parent_dps,
        ) == Err::<Option<DataStoreV>, DriverError>(DriverError::MissingChild),
{
}

/// A copy of an authorization set.
fn copy_dps(dps: &Vec<DelegatedPuzzle>) -> (r: Vec<DelegatedPuzzle>)
    ensures
        r@.map_values(|d: DelegatedPuzzle| d@) == dps@.map_values(|d: DelegatedPuzzle| d@),
{
    let mut out: Vec<DelegatedPuzzle> = Vec::new();
    let mut i: usize = 0;
    while i < dps.len()
        invariant
            i <= dps@.len(),
            out@.len() == i,
            forall|j: int| 0 <= j < i ==> #[trigger] out@[j]@ == dps@[j]@,
        decreases dps@.len() - i,
    {
        out.push(dps[i].duplicate());
        i += 1;
    }
    proof {
        assert(out@.map_values(|d: DelegatedPuzzle| d@) =~= dps@.map_values(
            |d: DelegatedPuzzle| d@,
        ));
    }
    out
}

impl DataStore {
    /// Assembles an object from a decoded memo list, per
    /// `build_model`.
    pub fn build_datastore(
        coin: Coin,
        launcher_id: Vec<u8>,
        proof: Proof,
        metadata: DataStoreMetadata,
        fallback_owner_ph: Vec<u8>,
        memos: Vec<Vec<u8>>,
    ) -> (r: Result<DataStore, DriverError>)
        ensures
            match r {
                Ok(ds) => build_model(
                    coin@,
                    launcher_id@,
                    proof@,
                    metadata@,
                    fallback_owner_ph@,
                    memos@.map_values(|m: Vec<u8>| m@),
                ) == Ok::<DataStoreV, DriverError>(ds@),
                Err(e) => build_model(
                    coin@,
                    launcher_id@,
                    proof@,
                    metadata@,
                    fallback_owner_ph@,
                    memos@.map_values(|m: Vec<u8>| m@),
                ) == Err::<DataStoreV, DriverError>(e),
            },
    {
        let ghost memosv = memos@.map_values(|m: Vec<u8>| m@);
        proof {
            if memos@.len() > 0 {
                assert(memosv[0] == memos@[0]@);
            }
            if memos@.len() > 1 {
                assert(memosv[1] == memos@[1]@);
            }
            if memos@.len() > 2 {
                assert(memosv[2] == memos@[2]@);
            }
        }
        if memos.len() == 0 {
            let empty_dps: Vec<DelegatedPuzzle> = Vec::new();
            proof {
                assert(empty_dps@.map_values(|d: DelegatedPuzzle| d@) =~= Seq::<
                    DelegatedPuzzleV,
                >::empty());
            }
            return Ok(
                DataStore {
                    coin,
                    proof,
                    info: DataStoreInfo {
                        launcher_id,
                        metadata,
                        owner_puzzle_hash: fallback_owner_ph,
                        delegated_puzzles: empty_dps,
                    },
                },
            );
        }
        if !crate::node::bytes_eq(&memos[0], &launcher_id) {
            return Err(DriverError::InvalidMemo);
        }
        if memos.len() == 3 && crate::node::bytes_eq(&memos[1], &metadata.root_hash) {
            if memos[2].len() == 32 {
                let empty_dps: Vec<DelegatedPuzzle> = Vec::new();
                proof {
                    assert(empty_dps@.map_values(|d: DelegatedPuzzle| d@) =~= Seq::<
                        DelegatedPuzzleV,
                    >::empty());
                }
                return Ok(
                    DataStore {
                        coin,
                        proof,
                        info: DataStoreInfo {
                            launcher_id,
                            metadata,
                            owner_puzzle_hash: copy_bytes(&memos[2]),
                            delegated_puzzles: empty_dps,
                        },
                    },
                );
            } else {
                return Err(DriverError::InvalidMemo);
            }
        }
        if memos.len() == 1 {
            let empty_dps: Vec<DelegatedPuzzle> = Vec::new();
            proof {
                assert(empty_dps@.map_values(|d: DelegatedPuzzle| d@) =~= Seq::<
                    DelegatedPuzzleV,
                >::empty());
            }
            return Ok(
                DataStore {
                    coin,
                    proof,
                    info: DataStoreInfo {
                        launcher_id,
                        metadata,
                        owner_puzzle_hash: fallback_owner_ph,
                        delegated_puzzles: empty_dps,
                    },
                },
            );
        }
        if memos[1].len() != 32 {
            return Err(DriverError::InvalidMemo);
        }
        let dps = match crate::memos::decode_delegated_puzzles(&memos, 2) {
            Ok(dps) => dps,
            Err(e) => {
                return Err(e);
            },
        };
        Ok(
            DataStore {
                coin,
                proof,
                info: DataStoreInfo {
                    launcher_id,
                    metadata,
                    owner_puzzle_hash: copy_bytes(&memos[1]),
                    delegated_puzzles: dps,
                },
            },
        )
    }

    pub fn new(coin: Coin, proof: Proof, info: DataStoreInfo) -> (r: DataStore)
        ensures
            r@ == (DataStoreV { coin: coin@, proof: proof@, info: info@ }),
    {
        DataStore { coin, proof, info }
    }

    /// Creates the spend record that exercises `inner_spend` on this
    /// object: the layers composed around the inner spend, serialized
    /// against the current coin.  With an authorization set present,
    /// the solution carries the exercised puzzle's own membership
    /// proof.
    pub fn spend(self, inner_spend: Spend) -> (r: Result<CoinSpend, DriverError>)
        ensures
            self@.info.delegated_puzzles.len() == 0 ==> match r {
                Ok(cs) => {
                    &&& cs.coin@ == self@.coin
                    &&& crate::codec::serializable(object_puzzle(self@.info, inner_spend.puzzle@))
                    &&& cs.puzzle_reveal@ == crate::codec::ser(
                        object_puzzle(self@.info, inner_spend.puzzle@),
                    )
                    &&& cs.solution@ == crate::codec::ser(
                        singleton_solution(
                            self@.proof,
                            self@.coin.amount,
                            state_solution(inner_spend.solution@),
                        ),
                    )
                },
                Err(e) => e == DriverError::Serialization && (!crate::codec::serializable(
                    object_puzzle(self@.info, inner_spend.puzzle@),
                ) || !crate::codec::serializable(
                    singleton_solution(
                        self@.proof,
                        self@.coin.amount,
                        state_solution(inner_spend.solution@),
                    ),
                )),
            },
            self@.info.delegated_puzzles.len() > 0 ==> match r {
                Ok(cs) => {
                    &&& cs.coin@ == self@.coin
                    &&& cs.puzzle_reveal@ == crate::codec::ser(
                        object_puzzle(self@.info, inner_spend.puzzle@),
                    )
                    &&& exists|path: Seq<bool>, sibs: Seq<Seq<u8>>|
                        {
                            &&& merkle_verify(
                                merkle_root(dp_leaves(self@.info.delegated_puzzles)),
                                tree_hash_of(inner_spend.puzzle@),
                                path,
                                sibs,
                            )
                            &&& cs.solution@ == crate::codec::ser(
                                singleton_solution(
                                    self@.proof,
                                    self@.coin.amount,
                                    state_solution(
                                        delegation_solution(
                                            merkle_proof_node(path, sibs),
                                            inner_spend.puzzle@,
                                            inner_spend.solution@,
                                        ),
                                    ),
                                ),
                            )
                        }
                },
                Err(e) => {
                    ||| e == DriverError::MissingProof && !dp_leaves(
                        self@.info.delegated_puzzles,
                    ).contains(tree_hash_of(inner_spend.puzzle@))
                    ||| e == DriverError::Serialization
                },
            },
    {
        let updater_hash = crate::puzzles::metadata_updater_hash_exec();
        let metadata_node_exec = self.info.metadata.to_node();
        if self.info.delegated_puzzles.len() == 0 {
            let st = crate::puzzles::construct_state_layer(
                metadata_node_exec,
                &updater_hash,
                inner_spend.puzzle,
            );
            let puzzle = crate::puzzles::construct_singleton(&self.info.launcher_id, st);
            let solution = build_solution(&self.proof, self.coin.amount, inner_spend.solution);
            let pb = match crate::codec::serialize_node(&puzzle) {
                Some(pb) => pb,
                None => {
                    return Err(DriverError::Serialization);
                },
            };
            let sb = match crate::codec::serialize_node(&solution) {
                Some(sb) => sb,
                None => {
                    return Err(DriverError::Serialization);
                },
            };
            Ok(CoinSpend::new(self.coin, pb, sb))
        } else {
            let tree = get_merkle_tree(&self.info.delegated_puzzles);
            let root = tree.get_root();
            let deleg = crate::puzzles::construct_delegation_layer(
                &self.info.launcher_id,
                &self.info.owner_puzzle_hash,
                &root,
            );
            let st = crate::puzzles::construct_state_layer(metadata_node_exec, &updater_hash, deleg);
            let puzzle = crate::puzzles::construct_singleton(&self.info.launcher_id, st);
            let leaf = tree_hash(&inner_spend.puzzle);
            let pf = match tree.generate_proof(&leaf) {
                Some(pf) => pf,
                None => {
                    return Err(DriverError::MissingProof);
                },
            };
            let pf_node = match merkle_proof_to_node(&pf) {
                Ok(n) => n,
                Err(_) => {
                    return Err(DriverError::Serialization);
                },
            };
            let ghost pathv = pf.path@;
            let ghost sibsv = pf.hashes@.map_values(|h: Vec<u8>| h@);
            let mut deleg_items: Vec<Node> = Vec::new();
            deleg_items.push(pf_node);
            deleg_items.push(inner_spend.puzzle);
            deleg_items.push(inner_spend.solution);
            proof {
                assert(deleg_items@.map_values(|n: Node| n@) =~= seq![
                    merkle_proof_node(pathv, sibsv),
                    inner_spend.puzzle@,
                    inner_spend.solution@,
                ]);
            }
            let deleg_sol = Node::list(deleg_items);
            let solution = build_solution(&self.proof, self.coin.amount, deleg_sol);
            let pb = match crate::codec::serialize_node(&puzzle) {
                Some(pb) => pb,
                None => {
                    return Err(DriverError::Serialization);
                },
            };
            let sb = match crate::codec::serialize_node(&solution) {
                Some(sb) => sb,
                None => {
                    return Err(DriverError::Serialization);
                },
            };
            Ok(CoinSpend::new(self.coin, pb, sb))
        }
    }

    /// Reconstructs the object state a recorded spend results in, per
    /// `from_spend_model`: `Ok(None)` when the coin is not this
    /// protocol's, an error when it claims to be one but violates an
    /// invariant, and the successor object otherwise.  The caller's
    /// prior authorization set is used only where the chain does not
    /// commit a new one.
    #[verifier::rlimit(100)]
    pub fn from_spend(cs: &CoinSpend, parent_delegated_puzzles: &Vec<DelegatedPuzzle>) -> (r:
        Result<Option<DataStore>, DriverError>)
        ensures
            match r {
                Ok(opt) => from_spend_model(
                    cs@,
                    parent_delegated_puzzles@.map_values(|d: DelegatedPuzzle| d@),
                ) == Ok::<Option<DataStoreV>, DriverError>(
                    match opt {
                        Some(ds) => Some(ds@),
                        None => None,
                    },
                ),
                Err(e) => from_spend_model(
                    cs@,
                    parent_delegated_puzzles@.map_values(|d: DelegatedPuzzle| d@),
                ) == Err::<Option<DataStoreV>, DriverError>(e),
            },
    {
        proof {
            reveal_with_fuel(crate::node::node_view, 6);
        }
        let lph = crate::puzzles::launcher_hash();
        if crate::node::bytes_eq(&cs.coin.puzzle_hash, &lph) {
            let launcher_id = cs.coin.coin_id();
            let sol_node = match crate::codec::deserialize_node(&cs.solution) {
                Some(n) => n,
                None => {
                    return Err(DriverError::Serialization);
                },
            };
            let (sph, amount, kv) = match parse_launcher_solution(&sol_node) {
                Some(t) => t,
                None => {
                    return Err(DriverError::Serialization);
                },
            };
            match &kv {
                Node::Pair(md_or_root, rest) => match &**rest {
                    Node::Pair(ph_node, memos_part) => match &**ph_node {
                        Node::Atom(state_inner_ph) => {
                            if state_inner_ph.len() != 32 {
                                return Err(DriverError::Serialization);
                            }
                            let memos = match crate::conditions::atoms_list_exec(memos_part) {
                                Some(m) => m,
                                None => {
                                    return Err(DriverError::Serialization);
                                },
                            };
                            let eve = Proof::Eve(
                                EveProof {
                                    parent_parent_coin_info: copy_bytes(&cs.coin.parent_coin_info),
                                    parent_amount: cs.coin.amount,
                                },
                            );
                            let new_coin = Coin::new(copy_bytes(&launcher_id), sph, amount);
                            match &**md_or_root {
                                Node::Pair(_, _) => {
                                    let md = match crate::metadata::parse_metadata(md_or_root) {
                                        Some(md) => md,
                                        None => {
                                            return Err(DriverError::Serialization);
                                        },
                                    };
                                    let ghost memosv = memos@.map_values(|m: Vec<u8>| m@);
                                    let mut memos2 = memos;
                                    memos2.insert(0, copy_bytes(&launcher_id));
                                    proof {
                                        assert(memos2@.map_values(|m: Vec<u8>| m@) =~= seq![
                                            launcher_id@,
                                        ] + memosv);
                                    }
                                    match Self::build_datastore(
                                        new_coin,
                                        copy_bytes(&launcher_id),
                                        eve,
                                        md,
                                        copy_bytes(state_inner_ph),
                                        memos2,
                                    ) {
                                        Ok(ds) => Ok(Some(ds)),
                                        Err(e) => Err(e),
                                    }
                                },
                                Node::Atom(root) => {
                                    if root.len() != 32 {
                                        return Err(DriverError::Serialization);
                                    }
                                    let md = DataStoreMetadata::root_hash_only(copy_bytes(root));
                                    match Self::build_datastore(
                                        new_coin,
                                        copy_bytes(&launcher_id),
                                        eve,
                                        md,
                                        copy_bytes(state_inner_ph),
                                        memos,
                                    ) {
                                        Ok(ds) => Ok(Some(ds)),
                                        Err(e) => Err(e),
                                    }
                                },
                            }
                        },
                        Node::Pair(_, _) => Err(DriverError::Serialization),
                    },
                    Node::Atom(_) => Err(DriverError::Serialization),
                },
                Node::Atom(_) => Err(DriverError::Serialization),
            }
        } else {
            let puzzle = match crate::codec::deserialize_node(&cs.puzzle_reveal) {
                Some(n) => n,
                None => {
                    return Err(DriverError::Serialization);
                },
            };
            let (launcher_id, state_puzzle) = match crate::puzzles::parse_singleton(&puzzle) {
                Some(t) => t,
                None => {
                    return Ok(None);
                },
            };
            let (md_node, updater_ph, inner_puzzle) = match crate::puzzles::parse_state_layer(
                &state_puzzle,
            ) {
                Some(t) => t,
                None => {
                    return Ok(None);
                },
            };
            let old_md = match crate::metadata::parse_metadata(&md_node) {
                Some(md) => md,
                None => {
                    return Err(DriverError::Serialization);
                },
            };
            let sol = match crate::codec::deserialize_node(&cs.solution) {
                Some(n) => n,
                None => {
                    return Err(DriverError::Serialization);
                },
            };
            let (_pf, _amt, ssol) = match parse_singleton_solution(&sol) {
                Some(t) => t,
                None => {
                    return Err(DriverError::Serialization);
                },
            };
            let inner_solution = match parse_state_solution(&ssol) {
                Some(t) => t,
                None => {
                    return Err(DriverError::Serialization);
                },
            };
            let conds = match crate::runner::puzzle_conditions(&inner_puzzle, &inner_solution) {
                Ok(c) => c,
                Err(_) => {
                    return Err(DriverError::Eval);
                },
            };
            let cc = match scan_last_odd_create(&conds) {
                Some(cc) => cc,
                None => {
                    return Err(DriverError::MissingChild);
                },
            };
            let nm_opt = scan_last_new_metadata(&conds);
            let new_md = match &nm_opt {
                Some(nm) => {
                    let mut env_items: Vec<Node> = Vec::new();
                    env_items.push(md_node.duplicate());
                    env_items.push(Node::Atom(copy_bytes(&updater_ph)));
                    env_items.push(nm.updater_solution.duplicate());
                    proof {
                        assert(env_items@.map_values(|n: Node| n@) =~= seq![
                            md_node@,
                            NodeV::Atom(updater_ph@),
                            nm.updater_solution@,
                        ]);
                    }
                    let env = Node::list(env_items);
                    let out = match crate::runner::run_puzzle(&nm.updater_reveal, &env) {
                        Ok(o) => o,
                        Err(_) => {
                            return Err(DriverError::Eval);
                        },
                    };
                    let items = match crate::node::as_list_exec(&out) {
                        Some(items) => items,
                        None => {
                            return Err(DriverError::Eval);
                        },
                    };
                    if items.len() < 1 {
                        return Err(DriverError::Eval);
                    }
                    proof {
                        assert(items@.map_values(|x: Node| x@)[0] == items@[0]@);
                    }
                    let parts = match crate::node::as_list_exec(&items[0]) {
                        Some(parts) => parts,
                        None => {
                            return Err(DriverError::Eval);
                        },
                    };
                    if parts.len() < 1 {
                        return Err(DriverError::Eval);
                    }
                    proof {
                        assert(parts@.map_values(|x: Node| x@)[0] == parts@[0]@);
                    }
                    let new_md_node = parts[0].duplicate();
                    match crate::metadata::parse_metadata(&new_md_node) {
                        Some(md) => md,
                        None => {
                            return Err(DriverError::Serialization);
                        },
                    }
                },
                None => old_md,
            };
            let md_for_hash = new_md.to_node();
            let new_md_hash = tree_hash(&md_for_hash);
            let state_hash = crate::puzzles::state_layer_ph(
                &new_md_hash,
                &updater_ph,
                &cc.puzzle_hash,
            );
            let new_ph = crate::puzzles::singleton_ph(&launcher_id, &state_hash);
            let parent_id = cs.coin.coin_id();
            let new_coin = Coin::new(parent_id, new_ph, cc.amount);
            let state_puzzle_hash_raw = tree_hash(&state_puzzle);
            let lineage = Proof::Lineage(
                LineageProof {
                    parent_parent_coin_info: copy_bytes(&cs.coin.parent_coin_info),
                    parent_inner_puzzle_hash: state_puzzle_hash_raw,
                    parent_amount: cs.coin.amount,
                },
            );
            let inner_hash = tree_hash(&inner_puzzle);
            if cc.memos.len() > 1 {
                match Self::build_datastore(
                    new_coin,
                    copy_bytes(&launcher_id),
                    lineage,
                    new_md,
                    inner_hash,
                    cc.memos,
                ) {
                    Ok(ds) => Ok(Some(ds)),
                    Err(e) => Err(e),
                }
            } else if !crate::puzzles::delegation_shaped(&inner_puzzle) {
                        let empty_dps: Vec<DelegatedPuzzle> = Vec::new();
                        proof {
                            assert(empty_dps@.map_values(|d: DelegatedPuzzle| d@) =~= Seq::<
                                DelegatedPuzzleV,
                            >::empty());
                        }
                        Ok(
                            Some(
                                DataStore {
                                    coin: new_coin,
                                    proof: lineage,
                                    info: DataStoreInfo {
                                        launcher_id: copy_bytes(&launcher_id),
                                        metadata: new_md,
                                        owner_puzzle_hash: inner_hash,
                                        delegated_puzzles: empty_dps,
                                    },
                                },
                            ),
                        )
            } else {
                match crate::puzzles::parse_delegation(&inner_puzzle) {
                    None => Err(DriverError::NonStandardLayer),
                    Some((_lid2, deleg_owner, _root)) => {
                        let (_pfn, reveal, rsol) = match parse_list_3(&inner_solution) {
                            Some(t) => t,
                            None => {
                                return Err(DriverError::Serialization);
                            },
                        };
                        let conds2 = match crate::runner::puzzle_conditions(&reveal, &rsol) {
                            Ok(c) => c,
                            Err(_) => {
                                return Err(DriverError::Eval);
                            },
                        };
                        match scan_first_odd_create(&conds2) {
                            None => Ok(
                                Some(
                                    DataStore {
                                        coin: new_coin,
                                        proof: lineage,
                                        info: DataStoreInfo {
                                            launcher_id: copy_bytes(&launcher_id),
                                            metadata: new_md,
                                            owner_puzzle_hash: deleg_owner,
                                            delegated_puzzles: copy_dps(parent_delegated_puzzles),
                                        },
                                    },
                                ),
                            ),
                            Some(cc2) => {
                                if crate::node::bytes_eq(&cc2.puzzle_hash, &inner_hash) {
                                    Ok(
                                        Some(
                                            DataStore {
                                                coin: new_coin,
                                                proof: lineage,
                                                info: DataStoreInfo {
                                                    launcher_id: copy_bytes(&launcher_id),
                                                    metadata: new_md,
                                                    owner_puzzle_hash: deleg_owner,
                                                    delegated_puzzles: copy_dps(
                                                        parent_delegated_puzzles,
                                                    ),
                                                },
                                            },
                                        ),
                                    )
                                } else {
                                    let empty_dps: Vec<DelegatedPuzzle> = Vec::new();
                                    proof {
                                        assert(empty_dps@.map_values(|d: DelegatedPuzzle| d@)
                                            =~= Seq::<DelegatedPuzzleV>::empty());
                                    }
                                    Ok(
                                        Some(
                                            DataStore {
                                                coin: new_coin,
                                                proof: lineage,
                                                info: DataStoreInfo {
                                                    launcher_id: copy_bytes(&launcher_id),
                                                    metadata: new_md,
                                                    owner_puzzle_hash: cc2.puzzle_hash,
                                                    delegated_puzzles: empty_dps,
                                                },
                                            },
                                        ),
                                    )
                                }
                            },
                        }
                    },
                }
            }
        }
    }

    /// The lineage proof this object's successor will present: this
    /// coin's parent, this object's singleton-inner puzzle hash, and
    /// this coin's amount.
    pub fn child_lineage_proof(&self) -> (r: LineageProof)
        ensures
            r.parent_parent_coin_info@ == self@.coin.parent_coin_info,
            r.parent_inner_puzzle_hash@ == crate::puzzles::state_layer_hash(
                tree_hash_of(metadata_node(self@.info.metadata)),
                crate::puzzles::metadata_updater_hash(),
                info_inner_puzzle_hash(self@.info),
            ),
            r.parent_amount == self@.coin.amount,
    {
        let md_node = self.info.metadata.to_node();
        let md_hash = tree_hash(&md_node);
        let updater_hash = crate::puzzles::metadata_updater_hash_exec();
        let inner_ph = if self.info.delegated_puzzles.len() == 0 {
            copy_bytes(&self.info.owner_puzzle_hash)
        } else {
            let tree = get_merkle_tree(&self.info.delegated_puzzles);
            let root = tree.get_root();
            crate::puzzles::delegation_ph(
                &self.info.launcher_id,
                &self.info.owner_puzzle_hash,
                &root,
            )
        };
        let full_inner = crate::puzzles::state_layer_ph(&md_hash, &updater_hash, &inner_ph);
        LineageProof {
            parent_parent_coin_info: copy_bytes(&self.coin.parent_coin_info),
            parent_inner_puzzle_hash: full_inner,
            parent_amount: self.coin.amount,
        }
    }

    /// The coin-creation condition an owner emits to recreate the
    /// object, optionally announcing the new state in its memos.
    pub fn owner_create_coin_condition(
        launcher_id: &Vec<u8>,
        new_inner_puzzle_hash: &Vec<u8>,
        new_delegated_puzzles: &Vec<DelegatedPuzzle>,
        hint_delegated_puzzles: bool,
    ) -> (r: crate::conditions::Condition)
        ensures
            r@ == owner_create_coin_model(
                launcher_id@,
                new_inner_puzzle_hash@,
                new_delegated_puzzles@.map_values(|d: DelegatedPuzzle| d@),
                hint_delegated_puzzles,
            ),
    {
        let new_puzzle_hash = if new_delegated_puzzles.len() == 0 {
            let tree = get_merkle_tree(new_delegated_puzzles);
            let root = tree.get_root();
            crate::puzzles::delegation_ph(launcher_id, new_inner_puzzle_hash, &root)
        } else {
            copy_bytes(new_inner_puzzle_hash)
        };
        let memos = if hint_delegated_puzzles {
            Self::get_recreation_memos(launcher_id, new_inner_puzzle_hash, new_delegated_puzzles)
        } else {
            let mut m: Vec<Vec<u8>> = Vec::new();
            m.push(copy_bytes(launcher_id));
            proof {
                assert(m@.map_values(|x: Vec<u8>| x@) =~= seq![launcher_id@]);
            }
            m
        };
        crate::conditions::Condition::CreateCoin(
            crate::conditions::CreateCoin { puzzle_hash: new_puzzle_hash, amount: 1, memos },
        )
    }

    /// The metadata-update condition that commits the given new
    /// metadata: the updater program with a solution carrying the new
    /// value, which the updater returns as its output.
    pub fn new_metadata_condition(new_metadata: &DataStoreMetadata) -> (r:
        crate::conditions::Condition)
        ensures
            r@ == crate::conditions::ConditionV::NewMetadata(
                crate::conditions::NewMetadataV {
                    updater_reveal: crate::puzzles::metadata_updater(),
                    updater_solution: new_metadata_output_node(new_metadata@),
                },
            ),
    {
        let md_node = new_metadata.to_node();
        let uph = crate::puzzles::metadata_updater_hash_exec();
        let mut part_items: Vec<Node> = Vec::new();
        part_items.push(md_node);
        part_items.push(Node::Atom(uph));
        proof {
            assert(part_items@.map_values(|n: Node| n@) =~= seq![
                metadata_node(new_metadata@),
                NodeV::Atom(crate::puzzles::metadata_updater_hash()),
            ]);
        }
        let part = Node::list(part_items);
        let mut out_items: Vec<Node> = Vec::new();
        out_items.push(part);
        out_items.push(Node::nil());
        proof {
            assert(out_items@.map_values(|n: Node| n@) =~= seq![
                NodeV::list(
                    seq![
                        metadata_node(new_metadata@),
                        NodeV::Atom(crate::puzzles::metadata_updater_hash()),
                    ],
                ),
                NodeV::nil(),
            ]);
        }
        let solution = Node::list(out_items);
        crate::conditions::Condition::NewMetadata(
            crate::conditions::NewMetadata {
                updater_reveal: crate::puzzles::metadata_updater_node(),
                updater_solution: solution,
            },
        )
    }

    /// The recreation-manifest memo list for the given new state.
    pub fn get_recreation_memos(
        launcher_id: &Vec<u8>,
        owner_puzzle_hash: &Vec<u8>,
        delegated_puzzles: &Vec<DelegatedPuzzle>,
    ) -> (r: Vec<Vec<u8>>)
        ensures
            r@.map_values(|m: Vec<u8>| m@) == crate::memos::recreation_memos(
                launcher_id@,
                owner_puzzle_hash@,
                delegated_puzzles@.map_values(|d: DelegatedPuzzle| d@),
            ),
    {
        crate::memos::encode_recreation_memos(launcher_id, owner_puzzle_hash, delegated_puzzles)
    }
}

} // verus!
