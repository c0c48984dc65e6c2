//! The singleton launcher.
//!
//! A launcher is a single-use coin at a well-known address, created
//! and spent within one block to mint a singleton's first ("eve")
//! coin.  Its id becomes the object's permanent identity before
//! anything is committed, and its spend announces the solution so the
//! parent spend can assert it.

use vstd::prelude::*;

use crate::codec::ser;
use crate::codec::serializable;
use crate::codec::serialize_node;
use crate::coin::Coin;
use crate::coin::CoinSpend;
use crate::coin::CoinV;
use crate::coin::announcement_id;
use crate::coin::announcement_of;
use crate::coin::coin_id_of;
use crate::conditions::Condition;
use crate::conditions::ConditionV;
use crate::conditions::CreateCoin;
use crate::conditions::CreateCoinV;
use crate::errors::DriverError;
use crate::hashing::tree_hash;
use crate::hashing::tree_hash_of;
use crate::node::Node;
use crate::node::NodeV;
use crate::node::copy_bytes;
use crate::puzzles::LAUNCHER_TAG;
use crate::puzzles::compiled_program;
use crate::puzzles::launcher_hash;
use crate::puzzles::launcher_puzzle_hash;
use crate::puzzles::singleton_ph;
use crate::puzzles::singleton_puzzle_hash;

verus! {

/// A launcher: the coin to be created and spent, the conditions its
/// parent spend must carry, and the amount the singleton will hold.
#[derive(Debug)]
pub struct Launcher {
    pub coin: Coin,
    pub conditions: Vec<Condition>,
    pub singleton_amount: u64,
}

/// The conditions a parent carries for a launcher created with the
/// given hint memos.
pub open spec fn launch_conditions(amount: u64, memos: Seq<Seq<u8>>) -> Seq<ConditionV> {
    seq![
        ConditionV::CreateCoin(
            CreateCoinV { puzzle_hash: launcher_puzzle_hash(), amount, memos },
        ),
    ]
}

/// The solution a launcher is spent with: the full singleton puzzle
/// hash, the amount, and the key/value list.
pub open spec fn launcher_solution_node(sph: Seq<u8>, amount: u64, kv: NodeV) -> NodeV {
    NodeV::list(seq![NodeV::Atom(sph), NodeV::int_atom(amount), kv])
}

impl Launcher {
    /// A launcher over an existing coin, with the conditions its
    /// parent must carry.
    pub fn from_coin(coin: Coin, conditions: Vec<Condition>) -> (r: Launcher)
        ensures
            r.coin@ == coin@,
            r.conditions@.map_values(|c: Condition| c@) == conditions@.map_values(
                |c: Condition| c@,
            ),
            r.singleton_amount == coin@.amount,
    {
        let singleton_amount = coin.amount;
        Launcher { coin, conditions, singleton_amount }
    }

    /// A launcher the given parent will create, without a hint memo.
    pub fn new(parent_coin_id: &Vec<u8>, amount: u64) -> (r: Launcher)
        ensures
            r.coin@ == (CoinV {
                parent_coin_info: parent_coin_id@,
                puzzle_hash: launcher_puzzle_hash(),
                amount,
            }),
            r.conditions@.map_values(|c: Condition| c@) == launch_conditions(amount, seq![]),
            r.singleton_amount == amount,
    {
        let lph = launcher_hash();
        let coin = Coin::new(copy_bytes(parent_coin_id), copy_bytes(&lph), amount);
        let mut conditions: Vec<Condition> = Vec::new();
        conditions.push(
            Condition::CreateCoin(
                CreateCoin { puzzle_hash: copy_bytes(&lph), amount, memos: Vec::new() },
            ),
        );
        proof {
            assert(Seq::<Vec<u8>>::empty().map_values(|m: Vec<u8>| m@) =~= Seq::<Seq<u8>>::empty());
            assert(conditions@.map_values(|c: Condition| c@) =~= launch_conditions(
                amount,
                seq![],
            ));
        }
        Launcher::from_coin(coin, conditions)
    }

    /// A launcher the given parent will create, hinted for later
    /// discovery.
    pub fn hinted(parent_coin_id: &Vec<u8>, amount: u64, hint: &Vec<u8>) -> (r: Launcher)
        ensures
            r.coin@ == (CoinV {
                parent_coin_info: parent_coin_id@,
                puzzle_hash: launcher_puzzle_hash(),
                amount,
            }),
            r.conditions@.map_values(|c: Condition| c@) == launch_conditions(
                amount,
                seq![hint@],
            ),
            r.singleton_amount == amount,
    {
        let lph = launcher_hash();
        let coin = Coin::new(copy_bytes(parent_coin_id), copy_bytes(&lph), amount);
        let mut memos: Vec<Vec<u8>> = Vec::new();
        memos.push(copy_bytes(hint));
        proof {
            assert(memos@.map_values(|m: Vec<u8>| m@) =~= seq![hint@]);
        }
        let mut conditions: Vec<Condition> = Vec::new();
        conditions.push(
            Condition::CreateCoin(CreateCoin { puzzle_hash: copy_bytes(&lph), amount, memos }),
        );
        proof {
            assert(conditions@.map_values(|c: Condition| c@) =~= launch_conditions(
                amount,
                seq![hint@],
            ));
        }
        Launcher::from_coin(coin, conditions)
    }

    /// Creates the launcher coin immediately from the parent, to be
    /// spent later attached to any spend: returns the parent's
    /// conditions and a launcher carrying none.
    pub fn create_early(parent_coin_id: &Vec<u8>, amount: u64) -> (r: (Vec<Condition>, Launcher))
        ensures
            r.0@.map_values(|c: Condition| c@) == launch_conditions(amount, seq![]),
            r.1.coin@ == (CoinV {
                parent_coin_info: parent_coin_id@,
                puzzle_hash: launcher_puzzle_hash(),
                amount,
            }),
            r.1.conditions@.map_values(|c: Condition| c@) == Seq::<ConditionV>::empty(),
            r.1.singleton_amount == amount,
    {
        let lph = launcher_hash();
        let mut conditions: Vec<Condition> = Vec::new();
        conditions.push(
            Condition::CreateCoin(
                CreateCoin { puzzle_hash: copy_bytes(&lph), amount, memos: Vec::new() },
            ),
        );
        proof {
            assert(Seq::<Vec<u8>>::empty().map_values(|m: Vec<u8>| m@) =~= Seq::<Seq<u8>>::empty());
            assert(conditions@.map_values(|c: Condition| c@) =~= launch_conditions(
                amount,
                seq![],
            ));
        }
        let coin = Coin::new(copy_bytes(parent_coin_id), copy_bytes(&lph), amount);
        let empty: Vec<Condition> = Vec::new();
        proof {
            assert(empty@.map_values(|c: Condition| c@) =~= Seq::<ConditionV>::empty());
        }
        (conditions, Launcher::from_coin(coin, empty))
    }

    /// As `create_early`, with a hint memo on the created coin.
    pub fn create_early_hinted(parent_coin_id: &Vec<u8>, amount: u64, hint: &Vec<u8>) -> (r: (
        Vec<Condition>,
        Launcher,
    ))
        ensures
            r.0@.map_values(|c: Condition| c@) == launch_conditions(amount, seq![hint@]),
            r.1.coin@ == (CoinV {
                parent_coin_info: parent_coin_id@,
                puzzle_hash: launcher_puzzle_hash(),
                amount,
            }),
            r.1.conditions@.map_values(|c: Condition| c@) == Seq::<ConditionV>::empty(),
            r.1.singleton_amount == amount,
    {
        let lph = launcher_hash();
        let mut memos: Vec<Vec<u8>> = Vec::new();
        memos.push(copy_bytes(hint));
        proof {
            assert(memos@.map_values(|m: Vec<u8>| m@) =~= seq![hint@]);
        }
        let mut conditions: Vec<Condition> = Vec::new();
        conditions.push(
            Condition::CreateCoin(CreateCoin { puzzle_hash: copy_bytes(&lph), amount, memos }),
        );
        proof {
            assert(conditions@.map_values(|c: Condition| c@) =~= launch_conditions(
                amount,
                seq![hint@],
            ));
        }
        let coin = Coin::new(copy_bytes(parent_coin_id), copy_bytes(&lph), amount);
        let empty: Vec<Condition> = Vec::new();
        proof {
            assert(empty@.map_values(|c: Condition| c@) =~= Seq::<ConditionV>::empty());
        }
        (conditions, Launcher::from_coin(coin, empty))
    }

    /// Changes the singleton amount to differ from the launcher
    /// amount.
    pub fn with_singleton_amount(self, singleton_amount: u64) -> (r: Launcher)
        ensures
            r.coin@ == self.coin@,
            r.conditions@.map_values(|c: Condition| c@) == self.conditions@.map_values(
                |c: Condition| c@,
            ),
            r.singleton_amount == singleton_amount,
    {
        Launcher { coin: self.coin, conditions: self.conditions, singleton_amount }
    }

    /// The launcher coin.
    pub fn coin(&self) -> (r: Coin)
        ensures
            r@ == self.coin@,
    {
        self.coin.duplicate()
    }

    /// Spends the launcher to mint the eve singleton.  Returns the
    /// parent's conditions extended with an assertion of the launch
    /// announcement, the eve coin, and the launcher's spend record.
    pub fn spend(self, singleton_inner_puzzle_hash: &Vec<u8>, key_value_list: Node) -> (r: Result<
        (Vec<Condition>, Coin, CoinSpend),
        DriverError,
    >)
        ensures
            match r {
                Ok(t) => ({
                    let sph = singleton_puzzle_hash(
                        coin_id_of(self.coin@),
                        singleton_inner_puzzle_hash@,
                    );
                    let sol = launcher_solution_node(
                        sph,
                        self.singleton_amount,
                        key_value_list@,
                    );
                    &&& serializable(sol)
                    &&& t.0@.map_values(|c: Condition| c@) == self.conditions@.map_values(
                        |c: Condition| c@,
                    ).push(
                        ConditionV::AssertCoinAnnouncement(
                            announcement_of(coin_id_of(self.coin@), tree_hash_of(sol)),
                        ),
                    )
                    &&& t.1@ == (CoinV {
                        parent_coin_info: coin_id_of(self.coin@),
                        puzzle_hash: sph,
                        amount: self.singleton_amount,
                    })
                    &&& t.2.coin@ == self.coin@
                    &&& t.2.puzzle_reveal@ == compiled_program(LAUNCHER_TAG)
                    &&& t.2.solution@ == ser(sol)
                }),
                Err(_) => !serializable(
                    launcher_solution_node(
                        singleton_puzzle_hash(
                            coin_id_of(self.coin@),
                            singleton_inner_puzzle_hash@,
                        ),
                        self.singleton_amount,
                        key_value_list@,
                    ),
                ),
            },
    {
        let launcher_id = self.coin.coin_id();
        let sph = singleton_ph(&launcher_id, singleton_inner_puzzle_hash);
        let ghost kvv = key_value_list@;
        let mut sol_items: Vec<Node> = Vec::new();
        sol_items.push(Node::Atom(copy_bytes(&sph)));
        sol_items.push(Node::from_u64(self.singleton_amount));
        sol_items.push(key_value_list);
        proof {
            assert(sol_items@.map_values(|n: Node| n@) =~= seq![
                NodeV::Atom(sph@),
                NodeV::int_atom(self.singleton_amount),
                kvv,
            ]);
        }
        let sol_node = Node::list(sol_items);
        let sol_bytes = match serialize_node(&sol_node) {
            Some(b) => b,
            None => {
                return Err(DriverError::Serialization);
            },
        };
        let sol_hash = tree_hash(&sol_node);
        let ann = announcement_id(&launcher_id, &sol_hash);
        let mut conditions = self.conditions;
        let ghost condsv = conditions@.map_values(|c: Condition| c@);
        conditions.push(Condition::AssertCoinAnnouncement(ann));
        proof {
            assert(conditions@.map_values(|c: Condition| c@) =~= condsv.push(
                ConditionV::AssertCoinAnnouncement(ann@),
            ));
        }
        let launcher_program = crate::puzzles::launcher_program_bytes();
        let singleton_coin = Coin::new(
            copy_bytes(&launcher_id),
            copy_bytes(&sph),
            self.singleton_amount,
        );
        let cs = CoinSpend::new(self.coin, launcher_program, sol_bytes);
        Ok((conditions, singleton_coin, cs))
    }
}

} // verus!
