use datastore_driver::coin::{announcement_id, Coin};
use datastore_driver::codec::serialize_node;
use datastore_driver::curry::curry_hash_exec;
use datastore_driver::hashing::{hash_atom_bytes, hash_pair_bytes, tree_hash};
use datastore_driver::node::Node;
use datastore_driver::puzzles;

fn clvmr_tree_hash(n: &Node) -> Vec<u8> {
    let bytes = serialize_node(n).unwrap();
    let mut a = clvmr::Allocator::new();
    let ptr = clvmr::serde::node_from_bytes(&mut a, &bytes).unwrap();
    clvm_utils::tree_hash(&a, ptr).to_vec()
}

#[test]
fn tree_hash_matches_reference_library() {
    let n = Node::pair(
        Node::Atom(vec![1, 2, 3]),
        Node::pair(Node::Atom(vec![]), Node::Atom(vec![0xff; 40])),
    );
    assert_eq!(tree_hash(&n), clvmr_tree_hash(&n));
    let leaf = Node::Atom(vec![5]);
    assert_eq!(tree_hash(&leaf), clvmr_tree_hash(&leaf));
}

#[test]
fn hash_combinators_match_reference_library() {
    let a = hash_atom_bytes(&vec![1, 2, 3]);
    assert_eq!(a, clvm_utils::tree_hash_atom(&[1, 2, 3]).to_vec());
    let b = hash_atom_bytes(&vec![]);
    let p = hash_pair_bytes(&a, &b);
    let ra: [u8; 32] = a.clone().try_into().unwrap();
    let rb: [u8; 32] = b.clone().try_into().unwrap();
    let rp = clvm_utils::tree_hash_pair(clvm_utils::TreeHash::new(ra), clvm_utils::TreeHash::new(rb));
    assert_eq!(p, rp.to_vec());
}

#[test]
fn curry_matches_reference_hash() {
    let mod_program = Node::Atom(vec![2]);
    let arg1 = Node::Atom(vec![5]);
    let arg2 = Node::Atom(vec![8]);
    let mod_hash = tree_hash(&mod_program);
    let h1 = tree_hash(&arg1);
    let h2 = tree_hash(&arg2);
    let mine = curry_hash_exec(&mod_hash, &vec![h1.clone(), h2.clone()]);
    let rm: [u8; 32] = mod_hash.clone().try_into().unwrap();
    let r1: [u8; 32] = h1.try_into().unwrap();
    let r2: [u8; 32] = h2.try_into().unwrap();
    let reference = clvm_utils::curry_tree_hash(
        clvm_utils::TreeHash::new(rm),
        &[clvm_utils::TreeHash::new(r1), clvm_utils::TreeHash::new(r2)],
    );
    assert_eq!(mine, reference.to_vec());
    // the built curried tree hashes to the same address
    let curried = mod_program.curry(vec![arg1, arg2]);
    assert_eq!(tree_hash(&curried), reference.to_vec());
}

#[test]
fn curry_then_uncurry_returns_the_parts() {
    let mod_program = Node::Atom(vec![2]);
    let args = vec![Node::Atom(vec![5]), Node::Atom(vec![8])];
    let curried = mod_program.duplicate().curry(vec![args[0].duplicate(), args[1].duplicate()]);
    let (m, back) = curried.uncurry().expect("uncurries");
    assert!(m.equals(&mod_program));
    assert_eq!(back.len(), 2);
    assert!(back[0].equals(&args[0]));
    assert!(back[1].equals(&args[1]));
}

#[test]
fn compiled_programs_match_the_standard_library() {
    assert_eq!(
        puzzles::launcher_program_bytes(),
        chia_puzzles::SINGLETON_LAUNCHER.to_vec()
    );
    assert_eq!(puzzles::launcher_hash(), chia_puzzles::SINGLETON_LAUNCHER_HASH.to_vec());
    let singleton = puzzles::program_node_exec(puzzles::SINGLETON_TAG);
    assert_eq!(tree_hash(&singleton), chia_puzzles::SINGLETON_TOP_LAYER_V1_1_HASH.to_vec());
    let state = puzzles::program_node_exec(puzzles::STATE_LAYER_TAG);
    assert_eq!(tree_hash(&state), chia_puzzles::NFT_STATE_LAYER_HASH.to_vec());
    let cat = puzzles::program_node_exec(puzzles::CAT_TAG);
    assert_eq!(tree_hash(&cat), chia_puzzles::CAT_PUZZLE_HASH.to_vec());
}

#[test]
fn coin_id_matches_the_ledger_library() {
    for amount in [0u64, 1, 127, 128, 0xffff, 1 << 62, u64::MAX] {
        let parent = vec![3u8; 32];
        let ph = vec![9u8; 32];
        let mine = Coin::new(parent.clone(), ph.clone(), amount).coin_id();
        let reference = chia_protocol::Coin {
            parent_coin_info: chia_protocol::Bytes32::new([3u8; 32]),
            puzzle_hash: chia_protocol::Bytes32::new([9u8; 32]),
            amount,
        }
        .coin_id();
        assert_eq!(mine, reference.to_vec(), "amount {amount}");
    }
}

#[test]
fn announcement_id_is_a_digest_of_id_and_message() {
    let cid = vec![1u8; 32];
    let msg = vec![0x24u8];
    let mine = announcement_id(&cid, &msg);
    let mut hasher = chia_sha2::Sha256::new();
    hasher.update(&cid);
    hasher.update(&msg);
    assert_eq!(mine, hasher.finalize().to_vec());
}
