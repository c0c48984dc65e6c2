use datastore_driver::coin::Coin;
use datastore_driver::launcher::Launcher;
use datastore_driver::node::Node;
use datastore_driver::puzzles;

fn p2_coin(amount: u64) -> Coin {
    Coin::new(vec![0x51u8; 32], vec![0x52u8; 32], amount)
}

#[test]
fn test_singleton_launcher() {
    let coin = p2_coin(1);
    let launcher = Launcher::new(&coin.coin_id(), 1);
    assert_eq!(launcher.coin().amount, 1);

    let (_conditions, singleton, _spend) =
        launcher.spend(&vec![0u8; 32], Node::nil()).expect("launch");
    assert_eq!(singleton.amount, 1);
}

#[test]
fn test_singleton_launcher_custom_amount() {
    let coin = p2_coin(1);
    let launcher = Launcher::new(&coin.coin_id(), 0);
    assert_eq!(launcher.coin().amount, 0);

    let (_conditions, singleton, _spend) = launcher
        .with_singleton_amount(1)
        .spend(&vec![0u8; 32], Node::nil())
        .expect("launch");
    assert_eq!(singleton.amount, 1);
}

#[test]
fn launcher_coin_carries_the_well_known_address() {
    let coin = p2_coin(1);
    let launcher = Launcher::new(&coin.coin_id(), 1);
    assert_eq!(launcher.coin().puzzle_hash, puzzles::launcher_hash());
    assert_eq!(
        launcher.coin().puzzle_hash,
        chia_puzzles::SINGLETON_LAUNCHER_HASH.to_vec()
    );
}

#[test]
fn launch_spend_reveals_the_launcher_program() {
    let coin = p2_coin(1);
    let launcher = Launcher::new(&coin.coin_id(), 1);
    let launcher_coin = launcher.coin();
    let (conditions, singleton, spend) =
        launcher.spend(&vec![3u8; 32], Node::nil()).expect("launch");
    assert_eq!(spend.puzzle_reveal, chia_puzzles::SINGLETON_LAUNCHER.to_vec());
    assert_eq!(spend.coin.parent_coin_info, launcher_coin.parent_coin_info);
    assert_eq!(singleton.parent_coin_info, launcher_coin.coin_id());
    // the parent's conditions end with the launch announcement assertion
    assert_eq!(conditions.len(), 2);
    match &conditions[1] {
        datastore_driver::conditions::Condition::AssertCoinAnnouncement(id) => {
            assert_eq!(id.len(), 32)
        },
        _ => panic!("expected the announcement assertion"),
    }
}
