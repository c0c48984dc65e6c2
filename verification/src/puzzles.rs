//! The protocol's programs and layer shapes.
//!
//! Four compiled programs come from the ledger's standard library:
//! the single-use launcher, the identity-preserving singleton layer,
//! the versioned-metadata state layer, and the fungible-token layer.
//! The delegation layer, the metadata updater and the role wrappers
//! are this crate's own definitions, small enough to write as trees
//! directly.  A layer is
//! always one mod program curried with that layer's parameters, so a
//! layer's address is `curry_hash` over the parameter addresses.

use vstd::prelude::*;

use crate::codec::deser;
use crate::codec::deserialize_node;
use crate::conditions::ASSERT_COIN_ANNOUNCEMENT;
use crate::conditions::CREATE_COIN;
use crate::conditions::CreateCoinV;
use crate::conditions::ConditionV;
use crate::conditions::cond_node;
use crate::curry::curried;
use crate::curry::curry_hash;
use crate::curry::uncurried;
use crate::curry::op_atom;
use crate::curry::op_node;
use crate::hashing::hash_atom;
use crate::hashing::hash_atom_bytes;
use crate::hashing::hash_pair;
use crate::hashing::hash_pair_bytes;
use crate::hashing::tree_hash;
use crate::hashing::tree_hash_of;
use crate::node::Node;
use crate::node::NodeV;
use crate::node::copy_bytes;

verus! {

/// Tag of the launcher's compiled program.
pub const LAUNCHER_TAG: u8 = 0;

/// Tag of the singleton layer's compiled program.
pub const SINGLETON_TAG: u8 = 1;

/// Tag of the state layer's compiled program.
pub const STATE_LAYER_TAG: u8 = 2;

/// Tag of the token layer's compiled program.
pub const CAT_TAG: u8 = 3;

/// The wire form of a standard compiled program, by tag.
pub uninterp spec fn compiled_program(tag: u8) -> Seq<u8>;

/// Relies on chia_puzzles: the compiled launcher
/// (`SINGLETON_LAUNCHER`), singleton layer
/// (`SINGLETON_TOP_LAYER_V1_1`), state layer (`NFT_STATE_LAYER`) and
/// token layer (`CAT_PUZZLE`) programs, each a fixed byte constant.
#[verifier::external_body]
fn compiled_program_bytes(tag: u8) -> (r: Vec<u8>)
    ensures
        r@ == compiled_program(tag),
{
    if tag == 0 {
        chia_puzzles::SINGLETON_LAUNCHER.to_vec()
    } else if tag == 1 {
        chia_puzzles::SINGLETON_TOP_LAYER_V1_1.to_vec()
    } else if tag == 2 {
        chia_puzzles::NFT_STATE_LAYER.to_vec()
    } else {
        chia_puzzles::CAT_PUZZLE.to_vec()
    }
}

/// A standard program read from its wire form; nil if the constant
/// were unreadable, which the tests rule out.
pub open spec fn program_node(tag: u8) -> NodeV {
    match deser(compiled_program(tag)) {
        Some(n) => n,
        None => NodeV::nil(),
    }
}

/// Reads a standard program into a tree.
pub fn program_node_exec(tag: u8) -> (r: Node)
    ensures
        r@ == program_node(tag),
{
    let bytes = compiled_program_bytes(tag);
    match deserialize_node(&bytes) {
        Some(n) => n,
        None => Node::nil(),
    }
}

/// The launcher's compiled program, in wire form.
pub fn launcher_program_bytes() -> (r: Vec<u8>)
    ensures
        r@ == compiled_program(LAUNCHER_TAG),
{
    compiled_program_bytes(LAUNCHER_TAG)
}

/// The launcher's program.
pub open spec fn launcher_mod() -> NodeV {
    program_node(LAUNCHER_TAG)
}

/// The well-known address every launcher coin carries.
pub open spec fn launcher_puzzle_hash() -> Seq<u8> {
    tree_hash_of(launcher_mod())
}

/// Computes the launcher's address.
pub fn launcher_hash() -> (r: Vec<u8>)
    ensures
        r@ == launcher_puzzle_hash(),
        r@.len() == 32,
{
    let n = program_node_exec(LAUNCHER_TAG);
    tree_hash(&n)
}

/// The singleton layer's mod program.
pub open spec fn singleton_mod() -> NodeV {
    program_node(SINGLETON_TAG)
}

/// The singleton layer mod's address.
pub open spec fn singleton_mod_hash() -> Seq<u8> {
    tree_hash_of(singleton_mod())
}

/// The state layer's mod program.
pub open spec fn state_mod() -> NodeV {
    program_node(STATE_LAYER_TAG)
}

/// The state layer mod's address.
pub open spec fn state_mod_hash() -> Seq<u8> {
    tree_hash_of(state_mod())
}

/// The token layer's mod program.
pub open spec fn cat_mod() -> NodeV {
    program_node(CAT_TAG)
}

/// The token layer mod's address.
pub open spec fn cat_mod_hash() -> Seq<u8> {
    tree_hash_of(cat_mod())
}

/// The delegation layer's mod program.  With its four parameters
/// curried in, its solution is `(membership_proof puzzle_reveal
/// puzzle_solution)`; the program runs the revealed delegated puzzle
/// on its solution, which the two environment paths pick out.  The
/// deployed on-chain program additionally checks the membership proof
/// against the curried root and guards recreation; the driver relies
/// only on the curried shape and the address.
pub open spec fn delegation_mod() -> NodeV {
    NodeV::list(seq![op_atom(2), NodeV::Atom(seq![95u8]), NodeV::Atom(seq![191u8])])
}

/// The delegation layer mod's address.
pub open spec fn delegation_mod_hash() -> Seq<u8> {
    tree_hash_of(delegation_mod())
}

/// Builds the delegation layer's mod program.
pub fn delegation_mod_node() -> (r: Node)
    ensures
        r@ == delegation_mod(),
{
    let mut items: Vec<Node> = Vec::new();
    items.push(op_node(2));
    items.push(op_node(95));
    items.push(op_node(191));
    proof {
        assert(items@.map_values(|n: Node| n@) =~= seq![
            op_atom(2),
            NodeV::Atom(seq![95u8]),
            NodeV::Atom(seq![191u8]),
        ]);
    }
    Node::list(items)
}

/// The writer role's wrapper program.  Curried with the writer's own
/// inner puzzle, it runs that puzzle on the first element of the
/// wrapper's solution.  The deployed on-chain program additionally
/// filters the conditions the inner puzzle may emit; the driver relies
/// only on the curried shape and the address.
pub open spec fn writer_mod() -> NodeV {
    NodeV::list(seq![op_atom(2), NodeV::Atom(seq![2u8]), NodeV::Atom(seq![5u8])])
}

/// The writer wrapper mod's address.
pub open spec fn writer_mod_hash() -> Seq<u8> {
    tree_hash_of(writer_mod())
}

/// Builds the writer wrapper's mod program.
pub fn writer_mod_node() -> (r: Node)
    ensures
        r@ == writer_mod(),
{
    let mut items: Vec<Node> = Vec::new();
    items.push(op_node(2));
    items.push(op_node(2));
    items.push(op_node(5));
    proof {
        assert(items@.map_values(|n: Node| n@) =~= seq![
            op_atom(2),
            NodeV::Atom(seq![2u8]),
            NodeV::Atom(seq![5u8]),
        ]);
    }
    Node::list(items)
}

/// The metadata updater the state layer is curried with: the one-atom
/// program that returns the third element of its environment, its own
/// solution.  An update instruction therefore carries the new state in
/// the updater solution itself.
pub open spec fn metadata_updater() -> NodeV {
    NodeV::Atom(seq![11u8])
}

/// The metadata updater's address.
pub open spec fn metadata_updater_hash() -> Seq<u8> {
    hash_atom(seq![11u8])
}

/// Builds the metadata updater program.
pub fn metadata_updater_node() -> (r: Node)
    ensures
        r@ == metadata_updater(),
{
    op_node(11)
}

/// Computes the metadata updater's address.
pub fn metadata_updater_hash_exec() -> (r: Vec<u8>)
    ensures
        r@ == metadata_updater_hash(),
        r@.len() == 32,
{
    let mut v: Vec<u8> = Vec::new();
    v.push(11u8);
    assert(v@ =~= seq![11u8]);
    hash_atom_bytes(&v)
}

/// An oracle's delegated puzzle: the quoted pair of effects that pays
/// the oracle's fee to its address and announces `"$"`.  Anyone can
/// exercise it; it never recreates the object itself.
pub open spec fn oracle_puzzle(oracle_puzzle_hash: Seq<u8>, oracle_fee: u64) -> NodeV {
    NodeV::cons(
        op_atom(1),
        NodeV::list(
            seq![
                cond_node(
                    ConditionV::CreateCoin(
                        CreateCoinV {
                            puzzle_hash: oracle_puzzle_hash,
                            amount: oracle_fee,
                            memos: seq![],
                        },
                    ),
                ),
                NodeV::list(seq![NodeV::Atom(seq![62u8]), NodeV::Atom(seq![36u8])]),
            ],
        ),
    )
}

/// Builds an oracle's delegated puzzle.
pub fn oracle_puzzle_node(oracle_puzzle_hash: &Vec<u8>, oracle_fee: u64) -> (r: Node)
    ensures
        r@ == oracle_puzzle(oracle_puzzle_hash@, oracle_fee),
{
    let cc = crate::conditions::Condition::CreateCoin(
        crate::conditions::CreateCoin {
            puzzle_hash: copy_bytes(oracle_puzzle_hash),
            amount: oracle_fee,
            memos: Vec::new(),
        },
    );
    let cc_node = cc.to_node();
    let mut ann: Vec<Node> = Vec::new();
    ann.push(op_node(62));
    ann.push(op_node(36));
    proof {
        assert(ann@.map_values(|n: Node| n@) =~= seq![
            NodeV::Atom(seq![62u8]),
            NodeV::Atom(seq![36u8]),
        ]);
    }
    let ann_node = Node::list(ann);
    let mut conds: Vec<Node> = Vec::new();
    conds.push(cc_node);
    conds.push(ann_node);
    proof {
        let ghost ccv = ConditionV::CreateCoin(
            CreateCoinV { puzzle_hash: oracle_puzzle_hash@, amount: oracle_fee, memos: seq![] },
        );
        assert(cc@ == ccv) by {
            assert(cc@->CreateCoin_0.memos =~= Seq::<Seq<u8>>::empty());
        }
        assert(conds@.map_values(|n: Node| n@) =~= seq![
            cond_node(ccv),
            NodeV::list(seq![NodeV::Atom(seq![62u8]), NodeV::Atom(seq![36u8])]),
        ]);
    }
    Node::pair(op_node(1), Node::list(conds))
}

/// The singleton's identity triple: its layer's mod hash, the object's
/// launcher id, and the launcher's address.
pub open spec fn singleton_struct(launcher_id: Seq<u8>) -> NodeV {
    NodeV::cons(
        NodeV::Atom(singleton_mod_hash()),
        NodeV::cons(NodeV::Atom(launcher_id), NodeV::Atom(launcher_puzzle_hash())),
    )
}

/// The address of the identity triple.
pub open spec fn singleton_struct_hash(launcher_id: Seq<u8>) -> Seq<u8> {
    hash_pair(
        hash_atom(singleton_mod_hash()),
        hash_pair(hash_atom(launcher_id), hash_atom(launcher_puzzle_hash())),
    )
}

/// The singleton layer over an inner puzzle.
pub open spec fn singleton_top(launcher_id: Seq<u8>, inner: NodeV) -> NodeV {
    curried(singleton_mod(), seq![singleton_struct(launcher_id), inner])
}

/// The singleton layer's address, from the inner puzzle's address.
pub open spec fn singleton_puzzle_hash(launcher_id: Seq<u8>, inner_ph: Seq<u8>) -> Seq<u8> {
    curry_hash(singleton_mod_hash(), seq![singleton_struct_hash(launcher_id), inner_ph])
}

/// The singleton layer's tree hashes to its address formula.
pub proof fn lemma_singleton_hash(launcher_id: Seq<u8>, inner: NodeV)
    ensures
        tree_hash_of(singleton_top(launcher_id, inner)) == singleton_puzzle_hash(
            launcher_id,
            tree_hash_of(inner),
        ),
{
    let args = seq![singleton_struct(launcher_id), inner];
    crate::curry::lemma_curry_hash(singleton_mod(), args);
    assert(tree_hash_of(singleton_struct(launcher_id)) == singleton_struct_hash(launcher_id)) by {
        reveal_with_fuel(tree_hash_of, 4);
    }
    assert(args.map_values(|a: NodeV| tree_hash_of(a)) =~= seq![
        singleton_struct_hash(launcher_id),
        tree_hash_of(inner),
    ]);
}

/// Builds the identity triple.
pub fn singleton_struct_node(launcher_id: &Vec<u8>) -> (r: Node)
    ensures
        r@ == singleton_struct(launcher_id@),
{
    let smod = program_node_exec(SINGLETON_TAG);
    let smh = tree_hash(&smod);
    let lph = launcher_hash();
    Node::pair(
        Node::Atom(smh),
        Node::pair(Node::Atom(copy_bytes(launcher_id)), Node::Atom(lph)),
    )
}

/// Wraps an inner puzzle in the singleton layer.
pub fn construct_singleton(launcher_id: &Vec<u8>, inner: Node) -> (r: Node)
    ensures
        r@ == singleton_top(launcher_id@, inner@),
{
    let smod = program_node_exec(SINGLETON_TAG);
    let st = singleton_struct_node(launcher_id);
    let ghost innerv = inner@;
    let mut args: Vec<Node> = Vec::new();
    args.push(st);
    args.push(inner);
    proof {
        assert(args@.map_values(|a: Node| a@) =~= seq![singleton_struct(launcher_id@), innerv]);
    }
    smod.curry(args)
}

/// Computes the singleton layer's address from the inner address.
pub fn singleton_ph(launcher_id: &Vec<u8>, inner_ph: &Vec<u8>) -> (r: Vec<u8>)
    ensures
        r@ == singleton_puzzle_hash(launcher_id@, inner_ph@),
        r@.len() == 32,
{
    let smod = program_node_exec(SINGLETON_TAG);
    let smh = tree_hash(&smod);
    let lph = launcher_hash();
    let lid_h = hash_atom_bytes(launcher_id);
    let lph_h = hash_atom_bytes(&lph);
    let smh_h = hash_atom_bytes(&smh);
    let st_h = hash_pair_bytes(&smh_h, &hash_pair_bytes(&lid_h, &lph_h));
    let mut arg_hashes: Vec<Vec<u8>> = Vec::new();
    arg_hashes.push(st_h);
    arg_hashes.push(copy_bytes(inner_ph));
    proof {
        assert(arg_hashes@.map_values(|h: Vec<u8>| h@) =~= seq![
            singleton_struct_hash(launcher_id@),
            inner_ph@,
        ]);
    }
    crate::curry::curry_hash_exec(&smh, &arg_hashes)
}

/// Reads a puzzle as the singleton layer: its launcher id and inner
/// puzzle, when the mod, the identity triple's shape and the two fixed
/// hashes all match.
pub open spec fn parse_singleton_v(p: NodeV) -> Option<(Seq<u8>, NodeV)> {
    match uncurried(p) {
        Some((m, args)) => if m == singleton_mod() && args.len() == 2 {
            match args[0] {
                NodeV::Pair(mh, rest) => match *rest {
                    NodeV::Pair(lid, lph) => match (*mh, *lid, *lph) {
                        (NodeV::Atom(mhb), NodeV::Atom(lidb), NodeV::Atom(lphb)) => if mhb
                            == singleton_mod_hash() && lphb == launcher_puzzle_hash()
                            && lidb.len() == 32 {
                            Some((lidb, args[1]))
                        } else {
                            None
                        },
                        _ => None,
                    },
                    NodeV::Atom(_) => None,
                },
                NodeV::Atom(_) => None,
            }
        } else {
            None
        },
        None => None,
    }
}

/// Attempts to read a puzzle as the singleton layer.
pub fn parse_singleton(p: &Node) -> (r: Option<(Vec<u8>, Node)>)
    ensures
        match r {
            Some(pr) => parse_singleton_v(p@) == Some((pr.0@, pr.1@)),
            None => parse_singleton_v(p@) is None,
        },
{
    proof {
        reveal_with_fuel(crate::node::node_view, 6);
    }
    let (m, mut args) = match p.uncurry() {
        Some(ma) => ma,
        None => {
            return None;
        },
    };
    let smod = program_node_exec(SINGLETON_TAG);
    if !m.equals(&smod) || args.len() != 2 {
        return None;
    }
    let ghost argsv = args@.map_values(|a: Node| a@);
    let inner = args.pop().unwrap();
    let st = args.pop().unwrap();
    proof {
        assert(inner@ == argsv[1]);
        assert(st@ == argsv[0]);
    }
    match &st {
        Node::Pair(mh, rest) => match &**rest {
            Node::Pair(lid, lph) => match (&**mh, &**lid, &**lph) {
                (Node::Atom(mhb), Node::Atom(lidb), Node::Atom(lphb)) => {
                    let smh = tree_hash(&smod);
                    let lph_known = launcher_hash();
                    if crate::node::bytes_eq(mhb, &smh) && crate::node::bytes_eq(
                        lphb,
                        &lph_known,
                    ) && lidb.len() == 32 {
                        Some((copy_bytes(lidb), inner))
                    } else {
                        None
                    }
                },
                _ => None,
            },
            Node::Atom(_) => None,
        },
        Node::Atom(_) => None,
    }
}

/// The state layer over an inner puzzle: mod hash, metadata, metadata
/// updater address, inner puzzle.
pub open spec fn state_layer_puzzle(metadata: NodeV, updater_ph: Seq<u8>, inner: NodeV) -> NodeV {
    curried(
        state_mod(),
        seq![NodeV::Atom(state_mod_hash()), metadata, NodeV::Atom(updater_ph), inner],
    )
}

/// The state layer's address, from the metadata's and inner puzzle's
/// addresses.
pub open spec fn state_layer_hash(
    metadata_hash: Seq<u8>,
    updater_ph: Seq<u8>,
    inner_ph: Seq<u8>,
) -> Seq<u8> {
    curry_hash(
        state_mod_hash(),
        seq![hash_atom(state_mod_hash()), metadata_hash, hash_atom(updater_ph), inner_ph],
    )
}

/// The state layer's tree hashes to its address formula.
pub proof fn lemma_state_layer_hash(metadata: NodeV, updater_ph: Seq<u8>, inner: NodeV)
    ensures
        tree_hash_of(state_layer_puzzle(metadata, updater_ph, inner)) == state_layer_hash(
            tree_hash_of(metadata),
            updater_ph,
            tree_hash_of(inner),
        ),
{
    let args = seq![NodeV::Atom(state_mod_hash()), metadata, NodeV::Atom(updater_ph), inner];
    crate::curry::lemma_curry_hash(state_mod(), args);
    assert(args.map_values(|a: NodeV| tree_hash_of(a)) =~= seq![
        hash_atom(state_mod_hash()),
        tree_hash_of(metadata),
        hash_atom(updater_ph),
        tree_hash_of(inner),
    ]);
}

/// Wraps an inner puzzle in the state layer.
pub fn construct_state_layer(metadata: Node, updater_ph: &Vec<u8>, inner: Node) -> (r: Node)
    ensures
        r@ == state_layer_puzzle(metadata@, updater_ph@, inner@),
{
    let smod = program_node_exec(STATE_LAYER_TAG);
    let smh = tree_hash(&smod);
    let ghost mdv = metadata@;
    let ghost innerv = inner@;
    let mut args: Vec<Node> = Vec::new();
    args.push(Node::Atom(smh));
    args.push(metadata);
    args.push(Node::Atom(copy_bytes(updater_ph)));
    args.push(inner);
    proof {
        assert(args@.map_values(|a: Node| a@) =~= seq![
            NodeV::Atom(state_mod_hash()),
            mdv,
            NodeV::Atom(updater_ph@),
            innerv,
        ]);
    }
    smod.curry(args)
}

/// Computes the state layer's address from the part addresses.
pub fn state_layer_ph(metadata_hash: &Vec<u8>, updater_ph: &Vec<u8>, inner_ph: &Vec<u8>) -> (r: Vec<
    u8,
>)
    ensures
        r@ == state_layer_hash(metadata_hash@, updater_ph@, inner_ph@),
        r@.len() == 32,
{
    let smod = program_node_exec(STATE_LAYER_TAG);
    let smh = tree_hash(&smod);
    let mut arg_hashes: Vec<Vec<u8>> = Vec::new();
    arg_hashes.push(hash_atom_bytes(&smh));
    arg_hashes.push(copy_bytes(metadata_hash));
    arg_hashes.push(hash_atom_bytes(updater_ph));
    arg_hashes.push(copy_bytes(inner_ph));
    proof {
        assert(arg_hashes@.map_values(|h: Vec<u8>| h@) =~= seq![
            hash_atom(state_mod_hash()),
            metadata_hash@,
            hash_atom(updater_ph@),
            inner_ph@,
        ]);
    }
    crate::curry::curry_hash_exec(&smh, &arg_hashes)
}

/// Reads a puzzle as the state layer: its metadata, metadata updater
/// address and inner puzzle.
pub open spec fn parse_state_layer_v(p: NodeV) -> Option<(NodeV, Seq<u8>, NodeV)> {
    match uncurried(p) {
        Some((m, args)) => if m == state_mod() && args.len() == 4 && args[0] == NodeV::Atom(
            state_mod_hash(),
        ) {
            match args[2] {
                NodeV::Atom(uph) => if uph.len() == 32 {
                    Some((args[1], uph, args[3]))
                } else {
                    None
                },
                NodeV::Pair(_, _) => None,
            }
        } else {
            None
        },
        None => None,
    }
}

/// Attempts to read a puzzle as the state layer.
pub fn parse_state_layer(p: &Node) -> (r: Option<(Node, Vec<u8>, Node)>)
    ensures
        match r {
            Some(pr) => parse_state_layer_v(p@) == Some((pr.0@, pr.1@, pr.2@)),
            None => parse_state_layer_v(p@) is None,
        },
{
    proof {
        reveal_with_fuel(crate::node::node_view, 6);
    }
    let (m, mut args) = match p.uncurry() {
        Some(ma) => ma,
        None => {
            return None;
        },
    };
    let smod = program_node_exec(STATE_LAYER_TAG);
    if !m.equals(&smod) || args.len() != 4 {
        return None;
    }
    let ghost argsv = args@.map_values(|a: Node| a@);
    let inner = args.pop().unwrap();
    let uph_node = args.pop().unwrap();
    let metadata = args.pop().unwrap();
    let mh_node = args.pop().unwrap();
    proof {
        assert(inner@ == argsv[3]);
        assert(uph_node@ == argsv[2]);
        assert(metadata@ == argsv[1]);
        assert(mh_node@ == argsv[0]);
    }
    let smh = tree_hash(&smod);
    let mh_ok = match &mh_node {
        Node::Atom(b) => crate::node::bytes_eq(b, &smh),
        Node::Pair(_, _) => false,
    };
    if !mh_ok {
        return None;
    }
    match &uph_node {
        Node::Atom(uph) => {
            if uph.len() == 32 {
                Some((metadata, copy_bytes(uph), inner))
            } else {
                None
            }
        },
        Node::Pair(_, _) => None,
    }
}

/// The delegation layer over an owner: mod hash, launcher id, owner
/// puzzle hash, authorization-set root.
pub open spec fn delegation_puzzle(
    launcher_id: Seq<u8>,
    owner_ph: Seq<u8>,
    merkle_root: Seq<u8>,
) -> NodeV {
    curried(
        delegation_mod(),
        seq![
            NodeV::Atom(delegation_mod_hash()),
            NodeV::Atom(launcher_id),
            NodeV::Atom(owner_ph),
            NodeV::Atom(merkle_root),
        ],
    )
}

/// The delegation layer's address.
pub open spec fn delegation_puzzle_hash(
    launcher_id: Seq<u8>,
    owner_ph: Seq<u8>,
    merkle_root: Seq<u8>,
) -> Seq<u8> {
    curry_hash(
        delegation_mod_hash(),
        seq![
            hash_atom(delegation_mod_hash()),
            hash_atom(launcher_id),
            hash_atom(owner_ph),
            hash_atom(merkle_root),
        ],
    )
}

/// The delegation layer's tree hashes to its address formula.
pub proof fn lemma_delegation_hash(launcher_id: Seq<u8>, owner_ph: Seq<u8>, merkle_root: Seq<u8>)
    ensures
        tree_hash_of(delegation_puzzle(launcher_id, owner_ph, merkle_root))
            == delegation_puzzle_hash(launcher_id, owner_ph, merkle_root),
{
    let args = seq![
        NodeV::Atom(delegation_mod_hash()),
        NodeV::Atom(launcher_id),
        NodeV::Atom(owner_ph),
        NodeV::Atom(merkle_root),
    ];
    crate::curry::lemma_curry_hash(delegation_mod(), args);
    assert(args.map_values(|a: NodeV| tree_hash_of(a)) =~= seq![
        hash_atom(delegation_mod_hash()),
        hash_atom(launcher_id),
        hash_atom(owner_ph),
        hash_atom(merkle_root),
    ]);
}

/// Builds the delegation layer puzzle.
pub fn construct_delegation_layer(
    launcher_id: &Vec<u8>,
    owner_ph: &Vec<u8>,
    merkle_root: &Vec<u8>,
) -> (r: Node)
    ensures
        r@ == delegation_puzzle(launcher_id@, owner_ph@, merkle_root@),
{
    let dmod = delegation_mod_node();
    let dmh = tree_hash(&dmod);
    let mut args: Vec<Node> = Vec::new();
    args.push(Node::Atom(dmh));
    args.push(Node::Atom(copy_bytes(launcher_id)));
    args.push(Node::Atom(copy_bytes(owner_ph)));
    args.push(Node::Atom(copy_bytes(merkle_root)));
    proof {
        assert(args@.map_values(|a: Node| a@) =~= seq![
            NodeV::Atom(delegation_mod_hash()),
            NodeV::Atom(launcher_id@),
            NodeV::Atom(owner_ph@),
            NodeV::Atom(merkle_root@),
        ]);
    }
    dmod.curry(args)
}

/// Computes the delegation layer's address.
pub fn delegation_ph(launcher_id: &Vec<u8>, owner_ph: &Vec<u8>, merkle_root: &Vec<u8>) -> (r: Vec<
    u8,
>)
    ensures
        r@ == delegation_puzzle_hash(launcher_id@, owner_ph@, merkle_root@),
        r@.len() == 32,
{
    let dmod = delegation_mod_node();
    let dmh = tree_hash(&dmod);
    let mut arg_hashes: Vec<Vec<u8>> = Vec::new();
    arg_hashes.push(hash_atom_bytes(&dmh));
    arg_hashes.push(hash_atom_bytes(launcher_id));
    arg_hashes.push(hash_atom_bytes(owner_ph));
    arg_hashes.push(hash_atom_bytes(merkle_root));
    proof {
        assert(arg_hashes@.map_values(|h: Vec<u8>| h@) =~= seq![
            hash_atom(delegation_mod_hash()),
            hash_atom(launcher_id@),
            hash_atom(owner_ph@),
            hash_atom(merkle_root@),
        ]);
    }
    crate::curry::curry_hash_exec(&dmh, &arg_hashes)
}

/// Reads a puzzle as the delegation layer: launcher id, owner puzzle
/// hash and authorization-set root.
pub open spec fn parse_delegation_v(p: NodeV) -> Option<(Seq<u8>, Seq<u8>, Seq<u8>)> {
    match uncurried(p) {
        Some((m, args)) => if m == delegation_mod() && args.len() == 4 && args[0] == NodeV::Atom(
            delegation_mod_hash(),
        ) {
            match (args[1], args[2], args[3]) {
                (NodeV::Atom(lid), NodeV::Atom(owner), NodeV::Atom(root)) => if lid.len() == 32
                    && owner.len() == 32 && root.len() == 32 {
                    Some((lid, owner, root))
                } else {
                    None
                },
                _ => None,
            }
        } else {
            None
        },
        None => None,
    }
}

/// Parsing inverts construction for the singleton layer.
pub proof fn lemma_parse_singleton_roundtrip(launcher_id: Seq<u8>, inner: NodeV)
    requires
        launcher_id.len() == 32,
    ensures
        parse_singleton_v(singleton_top(launcher_id, inner)) == Some((launcher_id, inner)),
{
    crate::curry::lemma_uncurry_curry(singleton_mod(), seq![singleton_struct(launcher_id), inner]);
    crate::hashing::lemma_sha256_len(seq![1u8] + crate::codec::ser(singleton_mod()));
}

/// Parsing inverts construction for the state layer.
pub proof fn lemma_parse_state_roundtrip(metadata: NodeV, updater_ph: Seq<u8>, inner: NodeV)
    requires
        updater_ph.len() == 32,
    ensures
        parse_state_layer_v(state_layer_puzzle(metadata, updater_ph, inner)) == Some(
            (metadata, updater_ph, inner),
        ),
{
    crate::curry::lemma_uncurry_curry(
        state_mod(),
        seq![NodeV::Atom(state_mod_hash()), metadata, NodeV::Atom(updater_ph), inner],
    );
}

/// Checks whether a puzzle carries the delegation layer's mod.
pub fn delegation_shaped(p: &Node) -> (r: bool)
    ensures
        r == is_delegation_shaped(p@),
{
    match p.uncurry() {
        Some((m, _args)) => {
            let dmod = delegation_mod_node();
            m.equals(&dmod)
        },
        None => false,
    }
}

/// Parsing inverts construction for the delegation layer.
pub proof fn lemma_parse_delegation_roundtrip(
    launcher_id: Seq<u8>,
    owner_ph: Seq<u8>,
    merkle_root: Seq<u8>,
)
    requires
        launcher_id.len() == 32,
        owner_ph.len() == 32,
        merkle_root.len() == 32,
    ensures
        parse_delegation_v(delegation_puzzle(launcher_id, owner_ph, merkle_root)) == Some(
            (launcher_id, owner_ph, merkle_root),
        ),
{
    crate::curry::lemma_uncurry_curry(
        delegation_mod(),
        seq![
            NodeV::Atom(delegation_mod_hash()),
            NodeV::Atom(launcher_id),
            NodeV::Atom(owner_ph),
            NodeV::Atom(merkle_root),
        ],
    );
}

/// Whether a puzzle is the delegation layer's mod under some curried
/// arguments, well-formed or not.
pub open spec fn is_delegation_shaped(p: NodeV) -> bool {
    match uncurried(p) {
        Some((m, _)) => m == delegation_mod(),
        None => false,
    }
}

/// Attempts to read a puzzle as the delegation layer.
pub fn parse_delegation(p: &Node) -> (r: Option<(Vec<u8>, Vec<u8>, Vec<u8>)>)
    ensures
        match r {
            Some(pr) => parse_delegation_v(p@) == Some((pr.0@, pr.1@, pr.2@)),
            None => parse_delegation_v(p@) is None,
        },
{
    proof {
        reveal_with_fuel(crate::node::node_view, 6);
    }
    let (m, mut args) = match p.uncurry() {
        Some(ma) => ma,
        None => {
            return None;
        },
    };
    let dmod = delegation_mod_node();
    if !m.equals(&dmod) || args.len() != 4 {
        return None;
    }
    let ghost argsv = args@.map_values(|a: Node| a@);
    let root_node = args.pop().unwrap();
    let owner_node = args.pop().unwrap();
    let lid_node = args.pop().unwrap();
    let mh_node = args.pop().unwrap();
    proof {
        assert(root_node@ == argsv[3]);
        assert(owner_node@ == argsv[2]);
        assert(lid_node@ == argsv[1]);
        assert(mh_node@ == argsv[0]);
    }
    let dmh = tree_hash(&dmod);
    let mh_ok = match &mh_node {
        Node::Atom(b) => crate::node::bytes_eq(b, &dmh),
        Node::Pair(_, _) => false,
    };
    if !mh_ok {
        return None;
    }
    match (&lid_node, &owner_node, &root_node) {
        (Node::Atom(lid), Node::Atom(owner), Node::Atom(root)) => {
            if lid.len() == 32 && owner.len() == 32 && root.len() == 32 {
                Some((copy_bytes(lid), copy_bytes(owner), copy_bytes(root)))
            } else {
                None
            }
        },
        _ => None,
    }
}

} // verus!
