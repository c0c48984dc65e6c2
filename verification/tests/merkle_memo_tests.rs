use datastore_driver::errors::DriverError;
use datastore_driver::memos::{
    decode_delegated_puzzles, encode_recreation_memos, DelegatedPuzzle, HintType,
};
use datastore_driver::merkle::{verify_proof, MerkleTree};

#[test]
fn merkle_membership_proofs_verify() {
    let leaves = vec![vec![1u8; 32], vec![2u8; 32], vec![3u8; 32]];
    let tree = MerkleTree::new(leaves.clone());
    let root = tree.get_root();
    for leaf in &leaves {
        let pf = tree.generate_proof(leaf).expect("member");
        assert!(verify_proof(&root, leaf, &pf));
        // the same proof does not take a different leaf to the root
        assert!(!verify_proof(&root, &vec![9u8; 32], &pf));
    }
}

#[test]
fn merkle_non_member_has_no_proof() {
    let tree = MerkleTree::new(vec![vec![1u8; 32], vec![2u8; 32]]);
    assert!(tree.generate_proof(&vec![7u8; 32]).is_none());
}

#[test]
fn merkle_single_leaf_and_order_sensitivity() {
    let a = vec![4u8; 32];
    let b = vec![5u8; 32];
    let one = MerkleTree::new(vec![a.clone()]);
    let pf = one.generate_proof(&a).unwrap();
    assert_eq!(pf.hashes.len(), 0);
    assert!(verify_proof(&one.get_root(), &a, &pf));
    let ab = MerkleTree::new(vec![a.clone(), b.clone()]).get_root();
    let ba = MerkleTree::new(vec![b, a]).get_root();
    assert_ne!(ab, ba);
}

#[test]
fn hint_tags() {
    assert_eq!(HintType::AdminPuzzle.value(), 0);
    assert_eq!(HintType::WriterPuzzle.value(), 1);
    assert_eq!(HintType::OraclePuzzle.value(), 2);
}

#[test]
fn recreation_memos_round_trip() {
    let launcher_id = vec![0xaau8; 32];
    let owner = vec![0xbbu8; 32];
    let dps = vec![
        DelegatedPuzzle::Admin(vec![1u8; 32]),
        DelegatedPuzzle::Writer(vec![2u8; 32]),
        DelegatedPuzzle::Oracle(vec![3u8; 32], 1000),
    ];
    let memos = encode_recreation_memos(&launcher_id, &owner, &dps);
    assert_eq!(memos[0], launcher_id);
    assert_eq!(memos[1], owner);
    assert_eq!(memos[2], vec![0u8]);
    assert_eq!(memos[3], vec![1u8; 32]);
    assert_eq!(memos[4], vec![1u8]);
    assert_eq!(memos[6], vec![2u8]);
    assert_eq!(memos[8], vec![0x03, 0xe8]);
    let back = decode_delegated_puzzles(&memos, 2).expect("decodes");
    assert_eq!(back.len(), 3);
    match &back[0] {
        DelegatedPuzzle::Admin(h) => assert_eq!(h, &vec![1u8; 32]),
        _ => panic!("expected the admin role"),
    }
    match &back[2] {
        DelegatedPuzzle::Oracle(ph, fee) => {
            assert_eq!(ph, &vec![3u8; 32]);
            assert_eq!(*fee, 1000);
        },
        _ => panic!("expected the oracle role"),
    }
}

#[test]
fn recreation_memos_zero_set_round_trip() {
    let launcher_id = vec![0x11u8; 32];
    let owner = vec![0x22u8; 32];
    let memos = encode_recreation_memos(&launcher_id, &owner, &Vec::new());
    assert_eq!(memos.len(), 2);
    let back = decode_delegated_puzzles(&memos, 2).expect("decodes");
    assert_eq!(back.len(), 0);
}

#[test]
fn oracle_fee_memo_edge_cases() {
    let launcher_id = vec![0u8; 32];
    let owner = vec![0u8; 32];
    let zero_fee = encode_recreation_memos(
        &launcher_id,
        &owner,
        &vec![DelegatedPuzzle::Oracle(vec![3u8; 32], 0)],
    );
    assert_eq!(zero_fee[4], Vec::<u8>::new());
    let high_bit_fee = encode_recreation_memos(
        &launcher_id,
        &owner,
        &vec![DelegatedPuzzle::Oracle(vec![3u8; 32], 128)],
    );
    assert_eq!(high_bit_fee[4], vec![0x00, 0x80]);
    match &decode_delegated_puzzles(&high_bit_fee, 2).unwrap()[0] {
        DelegatedPuzzle::Oracle(_, fee) => assert_eq!(*fee, 128),
        _ => panic!("expected the oracle role"),
    }
}

#[test]
fn malformed_memo_groups_fail() {
    // oracle tag with its fee field missing
    let memos = vec![vec![0u8; 32], vec![1u8; 32], vec![2u8], vec![3u8; 32]];
    assert!(matches!(
        decode_delegated_puzzles(&memos, 2),
        Err(DriverError::MissingMemo)
    ));
    // unknown role tag
    let memos = vec![vec![0u8; 32], vec![1u8; 32], vec![9u8], vec![1u8; 32]];
    assert!(matches!(
        decode_delegated_puzzles(&memos, 2),
        Err(DriverError::InvalidMemo)
    ));
    // admin hash of the wrong width
    let memos = vec![vec![0u8; 32], vec![1u8; 32], vec![0u8], vec![1u8; 31]];
    assert!(matches!(
        decode_delegated_puzzles(&memos, 2),
        Err(DriverError::InvalidMemo)
    ));
    // a single trailing memo is ignored
    let memos = vec![vec![0u8; 32], vec![1u8; 32], vec![7u8]];
    assert_eq!(decode_delegated_puzzles(&memos, 2).expect("trailing memo ignored").len(), 0);
    let memos2 = vec![vec![0u8; 32], vec![1u8; 32], vec![0u8], vec![1u8; 32], vec![7u8]];
    let decoded = decode_delegated_puzzles(&memos2, 2).expect("trailing memo ignored");
    assert_eq!(decoded.len(), 1);
}
