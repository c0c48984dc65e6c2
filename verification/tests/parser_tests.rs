use datastore_driver::coin::{Coin, CoinSpend};
use datastore_driver::codec::serialize_node;
use datastore_driver::conditions::{conditions_to_node, Condition, CreateCoin};
use datastore_driver::node::Node;
use datastore_driver::puzzles;
use datastore_driver::runner::{non_ephemeral_coins, puzzle_conditions, run_puzzle};

fn quoted(body: Node) -> Node {
    Node::pair(Node::Atom(vec![1]), body)
}

fn create_coin(puzzle_hash: Vec<u8>, amount: u64) -> Condition {
    Condition::CreateCoin(CreateCoin { puzzle_hash, amount, memos: Vec::new() })
}

#[test]
fn run_puzzle_returns_the_quoted_output() {
    let conds = conditions_to_node(&vec![create_coin(vec![5u8; 32], 7)]);
    let puzzle = quoted(conds.duplicate());
    let out = run_puzzle(&puzzle, &Node::nil()).expect("runs");
    assert!(out.equals(&conds));
}

#[test]
fn run_puzzle_rejects_a_failing_program() {
    // the raise operator fails every run
    let puzzle = Node::list(vec![Node::Atom(vec![8])]);
    assert!(run_puzzle(&puzzle, &Node::nil()).is_err());
}

#[test]
fn puzzle_conditions_classifies_the_output() {
    let conds = vec![create_coin(vec![5u8; 32], 7), create_coin(vec![6u8; 32], 1)];
    let puzzle = quoted(conditions_to_node(&conds));
    let parsed = puzzle_conditions(&puzzle, &Node::nil()).expect("runs");
    assert_eq!(parsed.len(), 2);
    match &parsed[0] {
        Condition::CreateCoin(cc) => {
            assert_eq!(cc.puzzle_hash, vec![5u8; 32]);
            assert_eq!(cc.amount, 7);
            assert_eq!(cc.memos.len(), 0);
        },
        _ => panic!("expected a coin creation"),
    }
}

#[test]
fn test_non_ephemeral_coins() {
    let coins: Vec<Coin> = (0..3)
        .map(|amount| Coin::new(vec![0u8; 32], vec![0u8; 32], amount))
        .collect();

    // the identity program returns its whole environment
    let puzzle_reveal = serialize_node(&Node::Atom(vec![1])).unwrap();
    let identity_solution = serialize_node(&Node::nil()).unwrap();

    let mut coin_spends = Vec::new();

    for i in 0..3u8 {
        let cc = CreateCoin {
            puzzle_hash: vec![i; 32],
            amount: u64::from(i),
            memos: Vec::new(),
        };
        let created = Coin::new(coins[i as usize].coin_id(), cc.puzzle_hash.clone(), cc.amount);
        let solution =
            serialize_node(&Node::list(vec![Condition::CreateCoin(cc).to_node()])).unwrap();

        coin_spends.push(CoinSpend::new(
            created,
            puzzle_reveal.clone(),
            identity_solution.clone(),
        ));
        coin_spends.push(CoinSpend::new(
            coins[i as usize].duplicate(),
            puzzle_reveal.clone(),
            solution,
        ));
    }

    let non_ephemeral = non_ephemeral_coins(&coin_spends).expect("bundle runs");
    assert_eq!(non_ephemeral.len(), coins.len());
    for (a, b) in non_ephemeral.iter().zip(coins.iter()) {
        assert!(a.equals(b));
    }
}

#[test]
fn non_ephemeral_coins_rejects_unreadable_spends() {
    let cs = CoinSpend::new(Coin::new(vec![0u8; 32], vec![0u8; 32], 1), vec![0xff], vec![0x80]);
    assert!(non_ephemeral_coins(&vec![cs]).is_err());
}

#[test]
fn writer_wrapper_runs_its_inner_puzzle() {
    let conds = conditions_to_node(&vec![create_coin(vec![5u8; 32], 7)]);
    let inner = quoted(conds.duplicate());
    let wrapped = puzzles::writer_mod_node().curry(vec![inner]);
    // the wrapper's solution holds the inner solution as its first element
    let solution = Node::list(vec![Node::nil()]);
    let out = run_puzzle(&wrapped, &solution).expect("runs");
    assert!(out.equals(&conds));
}

#[test]
fn delegation_layer_runs_the_revealed_puzzle() {
    let conds = conditions_to_node(&vec![create_coin(vec![5u8; 32], 1)]);
    let reveal = quoted(conds.duplicate());
    let layer = puzzles::construct_delegation_layer(
        &vec![1u8; 32],
        &vec![2u8; 32],
        &vec![3u8; 32],
    );
    let solution = Node::list(vec![Node::nil(), reveal, Node::nil()]);
    let out = run_puzzle(&layer, &solution).expect("runs");
    assert!(out.equals(&conds));
}
