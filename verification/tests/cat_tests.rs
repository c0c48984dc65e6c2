use datastore_driver::cat::CatSpend;
use datastore_driver::coin::Coin;
use datastore_driver::codec::deserialize_node;
use datastore_driver::conditions::{conditions_to_node, Condition, CreateCoin};
use datastore_driver::datastore::{LineageProof, Spend};
use datastore_driver::node::Node;
use datastore_driver::puzzles;

fn quoted(body: Node) -> Node {
    Node::pair(Node::Atom(vec![1]), body)
}

fn create_coin(puzzle_hash: Vec<u8>, amount: u64) -> Condition {
    Condition::CreateCoin(CreateCoin { puzzle_hash, amount, memos: Vec::new() })
}

fn lineage(tag: u8) -> LineageProof {
    LineageProof {
        parent_parent_coin_info: vec![tag; 32],
        parent_inner_puzzle_hash: vec![tag.wrapping_add(1); 32],
        parent_amount: 1,
    }
}

#[test]
fn ring_spend_builds_one_record_per_member() {
    let asset_id = vec![0x21u8; 32];
    let coin_a = Coin::new(vec![1u8; 32], vec![2u8; 32], 3);
    let coin_b = Coin::new(vec![4u8; 32], vec![5u8; 32], 5);
    let inner_a = quoted(conditions_to_node(&vec![create_coin(vec![6u8; 32], 3)]));
    let inner_b = quoted(conditions_to_node(&vec![create_coin(vec![7u8; 32], 5)]));

    let spends = CatSpend::new(asset_id.clone())
        .spend(
            coin_a.duplicate(),
            Spend { puzzle: inner_a, solution: Node::nil() },
            lineage(10),
            0,
        )
        .spend(
            coin_b.duplicate(),
            Spend { puzzle: inner_b, solution: Node::nil() },
            lineage(20),
            0,
        )
        .finish()
        .expect("ring builds");

    assert_eq!(spends.len(), 2);
    assert!(spends[0].coin.equals(&coin_a));
    assert!(spends[1].coin.equals(&coin_b));

    // the first member's puzzle is the token layer over its inner puzzle
    let puzzle = deserialize_node(&spends[0].puzzle_reveal).expect("parses");
    let (mod_program, args) = puzzle.uncurry().expect("curried");
    let cat_mod = puzzles::program_node_exec(puzzles::CAT_TAG);
    assert!(mod_program.equals(&cat_mod));
    assert_eq!(args.len(), 3);
    match &args[1] {
        Node::Atom(b) => assert_eq!(b, &asset_id),
        Node::Pair(_, _) => panic!("expected the issuance id"),
    }

    // the first member's solution names its predecessor (the second
    // member, around the ring) and carries a zero subtotal
    let solution = deserialize_node(&spends[0].solution).expect("parses");
    let items = datastore_driver::node::as_list_exec(&solution).expect("a list");
    assert_eq!(items.len(), 7);
    match &items[2] {
        Node::Atom(b) => assert_eq!(b, &coin_b.coin_id()),
        Node::Pair(_, _) => panic!("expected the predecessor id"),
    }
    match &items[4] {
        Node::Pair(_, _) => {},
        Node::Atom(_) => panic!("expected the successor proof"),
    }
    match &items[5] {
        Node::Atom(b) => assert_eq!(b, &Vec::<u8>::new()),
        Node::Pair(_, _) => panic!("expected the subtotal"),
    }
    // the second member's subtotal is the first member's delta, zero here
    let solution_b = deserialize_node(&spends[1].solution).expect("parses");
    let items_b = datastore_driver::node::as_list_exec(&solution_b).expect("a list");
    match &items_b[4] {
        Node::Pair(pl, _) => {
            // successor proof wraps around to the first member
            match &**pl {
                Node::Atom(b) => assert_eq!(b, &coin_a.parent_coin_info),
                Node::Pair(_, _) => panic!("expected the successor parent"),
            }
        },
        Node::Atom(_) => panic!("expected the successor proof"),
    }
}

#[test]
fn ring_spend_tracks_nonzero_subtotals() {
    let asset_id = vec![0x21u8; 32];
    // the first member keeps 2 of its 5: delta +2 carried to the second
    let coin_a = Coin::new(vec![1u8; 32], vec![2u8; 32], 5);
    let coin_b = Coin::new(vec![4u8; 32], vec![5u8; 32], 1);
    let inner_a = quoted(conditions_to_node(&vec![create_coin(vec![6u8; 32], 3)]));
    let inner_b = quoted(conditions_to_node(&vec![create_coin(vec![7u8; 32], 3)]));

    let spends = CatSpend::new(asset_id)
        .spend(coin_a, Spend { puzzle: inner_a, solution: Node::nil() }, lineage(10), 0)
        .spend(coin_b, Spend { puzzle: inner_b, solution: Node::nil() }, lineage(20), 0)
        .finish()
        .expect("ring builds");

    let solution_b = deserialize_node(&spends[1].solution).unwrap();
    let items_b = datastore_driver::node::as_list_exec(&solution_b).unwrap();
    match &items_b[5] {
        Node::Atom(b) => assert_eq!(b, &vec![2u8]),
        Node::Pair(_, _) => panic!("expected the subtotal"),
    }
}

#[test]
fn ring_spend_fails_when_a_member_does_not_run() {
    let asset_id = vec![0x21u8; 32];
    let coin_a = Coin::new(vec![1u8; 32], vec![2u8; 32], 1);
    // the raise operator fails every run
    let failing = Node::list(vec![Node::Atom(vec![8])]);
    let r = CatSpend::new(asset_id)
        .spend(coin_a, Spend { puzzle: failing, solution: Node::nil() }, lineage(10), 0)
        .finish();
    assert!(r.is_err());
}
