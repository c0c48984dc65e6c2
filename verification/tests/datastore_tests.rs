use datastore_driver::coin::{Coin, CoinSpend};
use datastore_driver::codec::serialize_node;
use datastore_driver::conditions::{conditions_to_node, Condition, CreateCoin};
use datastore_driver::datastore::{
    DLLauncherKVList, DataStore, DataStoreInfo, EveProof, OldDLLauncherKVList, Proof, Spend,
};
use datastore_driver::errors::DriverError;
use datastore_driver::hashing::tree_hash;
use datastore_driver::launcher::Launcher;
use datastore_driver::memos::DelegatedPuzzle;
use datastore_driver::metadata::DataStoreMetadata;
use datastore_driver::node::Node;
use datastore_driver::puzzles;

fn quoted(body: Node) -> Node {
    Node::pair(Node::Atom(vec![1]), body)
}

fn create_coin(puzzle_hash: Vec<u8>, amount: u64, memos: Vec<Vec<u8>>) -> Condition {
    Condition::CreateCoin(CreateCoin { puzzle_hash, amount, memos })
}

fn sample_metadata() -> DataStoreMetadata {
    DataStoreMetadata {
        root_hash: vec![0u8; 32],
        label: Some(b"label".to_vec()),
        description: Some(b"description".to_vec()),
        bytes: Some(1337),
    }
}

fn sample_store(delegated_puzzles: Vec<DelegatedPuzzle>) -> DataStore {
    DataStore::new(
        Coin::new(vec![0x41u8; 32], vec![0x42u8; 32], 1),
        Proof::Eve(EveProof { parent_parent_coin_info: vec![0x40u8; 32], parent_amount: 1 }),
        DataStoreInfo {
            launcher_id: vec![0x43u8; 32],
            metadata: sample_metadata(),
            owner_puzzle_hash: vec![0x44u8; 32],
            delegated_puzzles,
        },
    )
}

#[test]
fn metadata_value_form_round_trips() {
    let md = sample_metadata();
    let node = md.to_node();
    let back = datastore_driver::metadata::parse_metadata(&node).expect("parses");
    assert_eq!(back.root_hash, md.root_hash);
    assert_eq!(back.label, md.label);
    assert_eq!(back.description, md.description);
    assert_eq!(back.bytes, md.bytes);
    let bare = DataStoreMetadata::root_hash_only(vec![7u8; 32]);
    let back2 = datastore_driver::metadata::parse_metadata(&bare.to_node()).expect("parses");
    assert_eq!(back2.root_hash, vec![7u8; 32]);
    assert_eq!(back2.label, None);
}

#[test]
fn launch_with_zero_hints_reconstructs_the_fallback_owner() {
    let parent = Coin::new(vec![1u8; 32], vec![2u8; 32], 1);
    let launcher = Launcher::new(&parent.coin_id(), 1);
    let launcher_coin = launcher.coin();
    let state_inner_ph = vec![0x77u8; 32];

    let md = sample_metadata();
    let kv = DLLauncherKVList {
        metadata: md.duplicate(),
        state_layer_inner_puzzle_hash: state_inner_ph.clone(),
        memos: Vec::new(),
    }
    .to_node();
    let (_conds, eve_coin, spend) = launcher
        .spend(&puzzles::state_layer_ph(&tree_hash(&md.to_node()), &puzzles::metadata_updater_hash_exec(), &state_inner_ph), kv)
        .expect("launch");

    let store = DataStore::from_spend(&spend, &Vec::new())
        .expect("reconstructs")
        .expect("is a launch");
    assert_eq!(store.info.launcher_id, launcher_coin.coin_id());
    assert_eq!(store.info.owner_puzzle_hash, state_inner_ph);
    assert_eq!(store.info.delegated_puzzles.len(), 0);
    assert_eq!(store.info.metadata.root_hash, md.root_hash);
    assert!(store.coin.equals(&eve_coin));
    match &store.proof {
        Proof::Eve(e) => {
            assert_eq!(e.parent_parent_coin_info, launcher_coin.parent_coin_info);
            assert_eq!(e.parent_amount, launcher_coin.amount);
        },
        Proof::Lineage(_) => panic!("expected an eve proof"),
    }
}

#[test]
fn launch_with_legacy_root_hash_format_reconstructs() {
    let parent = Coin::new(vec![1u8; 32], vec![2u8; 32], 1);
    let launcher = Launcher::new(&parent.coin_id(), 1);
    let launcher_coin = launcher.coin();
    let launcher_id = launcher_coin.coin_id();
    let root_hash = vec![0x66u8; 32];
    let state_inner_ph = vec![0x77u8; 32];
    let owner = vec![0x88u8; 32];

    // legacy key/value list: a bare root-hash atom, then the state
    // layer's inner puzzle hash, then the old two-memo manifest
    let kv = OldDLLauncherKVList {
        root_hash: root_hash.clone(),
        state_layer_inner_puzzle_hash: state_inner_ph.clone(),
        memos: vec![launcher_id.clone(), owner.clone()],
    }
    .to_node();
    let (_conds, _eve, spend) = launcher.spend(&vec![9u8; 32], kv).expect("launch");

    let store = DataStore::from_spend(&spend, &Vec::new())
        .expect("reconstructs")
        .expect("is a launch");
    assert_eq!(store.info.metadata.root_hash, root_hash);
    assert_eq!(store.info.metadata.label, None);
    assert_eq!(store.info.owner_puzzle_hash, owner);
    assert_eq!(store.info.delegated_puzzles.len(), 0);
}

#[test]
fn round_trip_without_authorization_set() {
    let store = sample_store(Vec::new());
    let expected_parent = store.coin.coin_id();
    let old_coin_parent = store.coin.parent_coin_info.clone();
    let old_amount = store.coin.amount;
    let md = store.info.metadata.duplicate();
    let launcher_id = store.info.launcher_id.clone();

    let successor_inner_ph = vec![0x55u8; 32];
    let inner_puzzle = quoted(conditions_to_node(&vec![create_coin(
        successor_inner_ph.clone(),
        1,
        Vec::new(),
    )]));
    let inner_ph = tree_hash(&inner_puzzle);
    let spend = store
        .spend(Spend { puzzle: inner_puzzle, solution: Node::nil() })
        .expect("spend");

    let next = DataStore::from_spend(&spend, &Vec::new())
        .expect("reconstructs")
        .expect("is this protocol");

    // the successor coin is recomputed, never trusted
    assert_eq!(next.coin.parent_coin_info, expected_parent);
    let expected_ph = puzzles::singleton_ph(
        &launcher_id,
        &puzzles::state_layer_ph(
            &tree_hash(&md.to_node()),
            &puzzles::metadata_updater_hash_exec(),
            &successor_inner_ph,
        ),
    );
    assert_eq!(next.coin.puzzle_hash, expected_ph);
    assert_eq!(next.coin.amount, 1);
    assert_eq!(next.info.launcher_id, launcher_id);
    assert_eq!(next.info.owner_puzzle_hash, inner_ph);
    assert_eq!(next.info.delegated_puzzles.len(), 0);
    assert_eq!(next.info.metadata.root_hash, md.root_hash);
    match &next.proof {
        Proof::Lineage(l) => {
            assert_eq!(l.parent_parent_coin_info, old_coin_parent);
            assert_eq!(l.parent_amount, old_amount);
        },
        Proof::Eve(_) => panic!("expected a lineage proof"),
    }
}

#[test]
fn round_trip_with_recreation_manifest_memos() {
    let store = sample_store(Vec::new());
    let launcher_id = store.info.launcher_id.clone();
    let new_owner = vec![0x99u8; 32];
    let new_dps = vec![DelegatedPuzzle::Admin(vec![0x0au8; 32])];

    let cond = DataStore::owner_create_coin_condition(&launcher_id, &new_owner, &new_dps, true);
    let inner_puzzle = quoted(conditions_to_node(&vec![cond]));
    let spend = store
        .spend(Spend { puzzle: inner_puzzle, solution: Node::nil() })
        .expect("spend");

    let next = DataStore::from_spend(&spend, &Vec::new())
        .expect("reconstructs")
        .expect("is this protocol");
    // the chain's committed manifest supersedes any local knowledge
    assert_eq!(next.info.owner_puzzle_hash, new_owner);
    assert_eq!(next.info.delegated_puzzles.len(), 1);
    match &next.info.delegated_puzzles[0] {
        DelegatedPuzzle::Admin(h) => assert_eq!(h, &vec![0x0au8; 32]),
        _ => panic!("expected the admin role"),
    }
}

#[test]
fn metadata_update_applies_through_the_updater() {
    let store = sample_store(Vec::new());
    let new_md = DataStoreMetadata {
        root_hash: vec![0x31u8; 32],
        label: Some(b"new_label".to_vec()),
        description: Some(b"new_description".to_vec()),
        bytes: Some(42),
    };
    let successor_inner_ph = vec![0x55u8; 32];
    let conds = vec![
        DataStore::new_metadata_condition(&new_md),
        create_coin(successor_inner_ph.clone(), 1, Vec::new()),
    ];
    let inner_puzzle = quoted(conditions_to_node(&conds));
    let spend = store
        .spend(Spend { puzzle: inner_puzzle, solution: Node::nil() })
        .expect("spend");

    let next = DataStore::from_spend(&spend, &Vec::new())
        .expect("reconstructs")
        .expect("is this protocol");
    assert_eq!(next.info.metadata.root_hash, new_md.root_hash);
    assert_eq!(next.info.metadata.label, new_md.label);
    assert_eq!(next.info.metadata.bytes, new_md.bytes);
}

#[test]
fn fatal_when_no_continuity_coin_is_emitted() {
    let store = sample_store(Vec::new());
    // only an even-amount creation: no continuity signal
    let inner_puzzle = quoted(conditions_to_node(&vec![create_coin(vec![5u8; 32], 2, Vec::new())]));
    let spend = store
        .spend(Spend { puzzle: inner_puzzle, solution: Node::nil() })
        .expect("spend");
    assert!(matches!(
        DataStore::from_spend(&spend, &Vec::new()),
        Err(DriverError::MissingChild)
    ));
}

#[test]
fn delegated_exit_hands_ownership_to_the_emitted_hash() {
    let exit_ph = vec![0x27u8; 32];
    let admin_puzzle = quoted(conditions_to_node(&vec![create_coin(exit_ph.clone(), 1, Vec::new())]));
    let admin_hash = tree_hash(&admin_puzzle);
    let dps = vec![
        DelegatedPuzzle::Admin(admin_hash.clone()),
        DelegatedPuzzle::Oracle(vec![1u8; 32], 1000),
    ];
    let store = sample_store(dps);

    let spend = store
        .spend(Spend { puzzle: admin_puzzle, solution: Node::nil() })
        .expect("spend");
    let parent_dps = vec![
        DelegatedPuzzle::Admin(admin_hash.clone()),
        DelegatedPuzzle::Oracle(vec![1u8; 32], 1000),
    ];
    let next = DataStore::from_spend(&spend, &parent_dps)
        .expect("reconstructs")
        .expect("is this protocol");
    assert_eq!(next.info.owner_puzzle_hash, exit_ph);
    assert_eq!(next.info.delegated_puzzles.len(), 0);
}

#[test]
fn delegated_noop_recreation_keeps_the_prior_set() {
    // build the spend record by hand so the delegated puzzle can name
    // the delegation layer's own address
    let launcher_id = vec![0x43u8; 32];
    let owner = vec![0x44u8; 32];
    let root = vec![0xabu8; 32];
    let deleg = puzzles::construct_delegation_layer(&launcher_id, &owner, &root);
    let layer_hash = tree_hash(&deleg);
    let admin_puzzle = quoted(conditions_to_node(&vec![create_coin(
        layer_hash.clone(),
        1,
        Vec::new(),
    )]));
    let md = sample_metadata();
    let state = puzzles::construct_state_layer(
        md.to_node(),
        &puzzles::metadata_updater_hash_exec(),
        deleg,
    );
    let puzzle = puzzles::construct_singleton(&launcher_id, state);
    let proof = Proof::Eve(EveProof {
        parent_parent_coin_info: vec![0x40u8; 32],
        parent_amount: 1,
    });
    let deleg_solution = Node::list(vec![Node::nil(), admin_puzzle, Node::nil()]);
    let solution = Node::list(vec![
        proof.to_node(),
        Node::from_u64(1),
        Node::list(vec![deleg_solution]),
    ]);
    let spend = CoinSpend::new(
        Coin::new(vec![0x41u8; 32], vec![0x42u8; 32], 1),
        serialize_node(&puzzle).unwrap(),
        serialize_node(&solution).unwrap(),
    );
    let parent_dps = vec![DelegatedPuzzle::Admin(vec![0x0cu8; 32])];
    let next = DataStore::from_spend(&spend, &parent_dps)
        .expect("reconstructs")
        .expect("is this protocol");
    // the recreating spend keeps the owner and the caller's prior set
    assert_eq!(next.info.owner_puzzle_hash, owner);
    assert_eq!(next.info.delegated_puzzles.len(), 1);
    match &next.info.delegated_puzzles[0] {
        DelegatedPuzzle::Admin(h) => assert_eq!(h, &vec![0x0cu8; 32]),
        _ => panic!("expected the admin role"),
    }
}

#[test]
fn spend_fails_for_a_puzzle_outside_the_authorization_set() {
    let dps = vec![DelegatedPuzzle::Admin(vec![0x0au8; 32])];
    let store = sample_store(dps);
    let outsider = quoted(conditions_to_node(&vec![create_coin(vec![5u8; 32], 1, Vec::new())]));
    assert!(matches!(
        store.spend(Spend { puzzle: outsider, solution: Node::nil() }),
        Err(DriverError::MissingProof)
    ));
}

#[test]
fn foreign_coins_reconstruct_to_nothing() {
    // a spend of a coin that is not a launcher and not a singleton
    let cs = CoinSpend::new(
        Coin::new(vec![1u8; 32], vec![2u8; 32], 5),
        serialize_node(&Node::Atom(vec![1])).unwrap(),
        serialize_node(&Node::nil()).unwrap(),
    );
    assert!(DataStore::from_spend(&cs, &Vec::new()).expect("no error").is_none());
}

#[test]
fn unreadable_solution_bytes_are_a_serialization_error() {
    let store = sample_store(Vec::new());
    let inner = quoted(conditions_to_node(&vec![create_coin(vec![5u8; 32], 1, Vec::new())]));
    let mut spend = store.spend(Spend { puzzle: inner, solution: Node::nil() }).expect("spend");
    spend.solution = vec![0xff];
    assert!(matches!(
        DataStore::from_spend(&spend, &Vec::new()),
        Err(DriverError::Serialization)
    ));
}

#[test]
fn child_lineage_proof_names_the_current_inner_hash() {
    let store = sample_store(Vec::new());
    let proof = store.child_lineage_proof();
    assert_eq!(proof.parent_parent_coin_info, store.coin.parent_coin_info);
    assert_eq!(proof.parent_amount, store.coin.amount);
    let expected = puzzles::state_layer_ph(
        &tree_hash(&store.info.metadata.to_node()),
        &puzzles::metadata_updater_hash_exec(),
        &store.info.owner_puzzle_hash,
    );
    assert_eq!(proof.parent_inner_puzzle_hash, expected);
}

#[test]
fn malformed_delegation_layer_is_a_nonstandard_layer() {
    // a puzzle carrying the delegation layer's mod whose launcher-id
    // parameter is not an atom
    let launcher_id = vec![0x43u8; 32];
    let dmh = tree_hash(&puzzles::delegation_mod_node());
    let bad_deleg = puzzles::delegation_mod_node().curry(vec![
        Node::Atom(dmh),
        Node::pair(Node::nil(), Node::nil()),
        Node::Atom(vec![2u8; 32]),
        Node::Atom(vec![3u8; 32]),
    ]);
    let md = sample_metadata();
    let state = puzzles::construct_state_layer(
        md.to_node(),
        &puzzles::metadata_updater_hash_exec(),
        bad_deleg,
    );
    let puzzle = puzzles::construct_singleton(&launcher_id, state);
    let proof = Proof::Eve(EveProof {
        parent_parent_coin_info: vec![0x40u8; 32],
        parent_amount: 1,
    });
    let inner_solution = quoted(conditions_to_node(&vec![create_coin(vec![5u8; 32], 1, Vec::new())]));
    // the outer run must still emit a continuity coin, so solve the
    // pass-through layer with a quoted-creation reveal
    let deleg_solution = Node::list(vec![Node::nil(), inner_solution, Node::nil()]);
    let solution = Node::list(vec![
        proof.to_node(),
        Node::from_u64(1),
        Node::list(vec![deleg_solution]),
    ]);
    let spend = CoinSpend::new(
        Coin::new(vec![0x41u8; 32], vec![0x42u8; 32], 1),
        serialize_node(&puzzle).unwrap(),
        serialize_node(&solution).unwrap(),
    );
    assert!(matches!(
        DataStore::from_spend(&spend, &Vec::new()),
        Err(DriverError::NonStandardLayer)
    ));
}

#[test]
fn failing_inner_run_is_an_evaluation_error() {
    let store = sample_store(Vec::new());
    // the raise operator fails every run
    let failing = Node::list(vec![Node::Atom(vec![8])]);
    let spend = store
        .spend(Spend { puzzle: failing, solution: Node::nil() })
        .expect("spend");
    assert!(matches!(
        DataStore::from_spend(&spend, &Vec::new()),
        Err(DriverError::Eval)
    ));
}

#[test]
fn build_datastore_rejects_a_foreign_first_memo() {
    let store = sample_store(Vec::new());
    let r = DataStore::build_datastore(
        store.coin.duplicate(),
        vec![0x43u8; 32],
        store.proof.duplicate(),
        sample_metadata(),
        vec![0x44u8; 32],
        vec![vec![9u8; 32], vec![0x44u8; 32]],
    );
    assert!(matches!(r, Err(DriverError::InvalidMemo)));
}
