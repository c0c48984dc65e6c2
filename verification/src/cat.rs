//! Ring spends of fungible tokens.
//!
//! Token coins of one issuance are spent together in a ring: each
//! spend names its predecessor's id and its successor's proof, and
//! carries a running subtotal of the value deltas so the ring can show
//! that issuance is conserved.  Building the ring re-runs every inner
//! puzzle to account for the value it sends on.

use vstd::prelude::*;

use crate::codec::ser;
use crate::codec::serializable;
use crate::codec::serialize_node;
use crate::coin::Coin;
use crate::coin::CoinSpend;
use crate::coin::CoinSpendV;
use crate::coin::CoinV;
use crate::coin::coin_id_of;
use crate::conditions::ConditionV;
use crate::curry::curried;
use crate::datastore::LineageProof;
use crate::datastore::Spend;
use crate::errors::DriverError;
use crate::hashing::tree_hash;
use crate::hashing::tree_hash_of;
use crate::node::Node;
use crate::node::NodeV;
use crate::node::copy_bytes;
use crate::puzzles::CAT_TAG;
use crate::puzzles::cat_mod;
use crate::puzzles::cat_mod_hash;
use crate::puzzles::program_node_exec;

verus! {

/// The most ring members, and the most conditions per member, a
/// bundle may hold: generous machine limits that keep the running
/// subtotal far inside 128 bits.
pub const MAX_RING_SIZE: usize = 0xffff;

/// One ring member: the token coin, the inner spend exercising it,
/// its lineage proof, and its permitted extra delta.
#[derive(Debug)]
pub struct CatSpendItem {
    pub coin: Coin,
    pub inner_spend: Spend,
    pub lineage_proof: LineageProof,
    pub extra_delta: i64,
}

/// The mathematical shape of a ring member.
pub struct CatSpendItemV {
    pub coin: CoinV,
    pub inner_puzzle: NodeV,
    pub inner_solution: NodeV,
    pub lineage_parent: Seq<u8>,
    pub lineage_inner_ph: Seq<u8>,
    pub lineage_amount: u64,
    pub extra_delta: i64,
}

impl View for CatSpendItem {
    type V = CatSpendItemV;

    open spec fn view(&self) -> CatSpendItemV {
        CatSpendItemV {
            coin: self.coin@,
            inner_puzzle: self.inner_spend.puzzle@,
            inner_solution: self.inner_spend.solution@,
            lineage_parent: self.lineage_proof.parent_parent_coin_info@,
            lineage_inner_ph: self.lineage_proof.parent_inner_puzzle_hash@,
            lineage_amount: self.lineage_proof.parent_amount,
            extra_delta: self.extra_delta,
        }
    }
}

/// A ring spend under construction.
#[derive(Debug)]
pub struct CatSpend {
    pub asset_id: Vec<u8>,
    pub cat_spends: Vec<CatSpendItem>,
}

/// The total value the creations of a condition list send on.
pub open spec fn sum_created(conds: Seq<ConditionV>) -> int
    decreases conds.len(),
{
    if conds.len() == 0 {
        0
    } else {
        (match conds.first() {
            ConditionV::CreateCoin(cc) => cc.amount as int,
            _ => 0,
        }) + sum_created(conds.drop_first())
    }
}

/// The token layer around an inner puzzle.
pub open spec fn cat_puzzle(asset_id: Seq<u8>, inner: NodeV) -> NodeV {
    curried(cat_mod(), seq![NodeV::Atom(cat_mod_hash()), NodeV::Atom(asset_id), inner])
}

/// A coin as a value tree.
pub open spec fn coin_node(c: CoinV) -> NodeV {
    NodeV::list(
        seq![
            NodeV::Atom(c.parent_coin_info),
            NodeV::Atom(c.puzzle_hash),
            NodeV::int_atom(c.amount),
        ],
    )
}

/// A three-field proof as a value tree: parent, inner puzzle hash,
/// amount.
pub open spec fn triple_proof_node(parent: Seq<u8>, inner_ph: Seq<u8>, amount: u64) -> NodeV {
    NodeV::list(seq![NodeV::Atom(parent), NodeV::Atom(inner_ph), NodeV::int_atom(amount)])
}

/// One ring member's solution: its inner solution, lineage proof,
/// predecessor id, own coin, successor proof, the running subtotal
/// before it, and its extra delta.
pub open spec fn cat_solution_node(
    item: CatSpendItemV,
    prev_id: Seq<u8>,
    next_parent: Seq<u8>,
    next_amount: u64,
    prev_subtotal: i64,
) -> NodeV {
    NodeV::list(
        seq![
            item.inner_solution,
            triple_proof_node(item.lineage_parent, item.lineage_inner_ph, item.lineage_amount),
            NodeV::Atom(prev_id),
            coin_node(item.coin),
            triple_proof_node(next_parent, tree_hash_of(item.inner_puzzle), next_amount),
            NodeV::Atom(crate::intbytes::int_bytes_i64(prev_subtotal)),
            NodeV::Atom(crate::intbytes::int_bytes_i64(item.extra_delta)),
        ],
    )
}

/// The spend record of ring member `i`, given the subtotal before it.
pub open spec fn cat_coin_spend(
    asset_id: Seq<u8>,
    items: Seq<CatSpendItemV>,
    i: int,
    prev_subtotal: i64,
) -> CoinSpendV {
    let item = items[i];
    let prev = items[if i == 0 {
        items.len() - 1
    } else {
        i - 1
    }];
    let next = items[if i == items.len() - 1 {
        0
    } else {
        i + 1
    }];
    CoinSpendV {
        coin: item.coin,
        puzzle_reveal: ser(cat_puzzle(asset_id, item.inner_puzzle)),
        solution: ser(
            cat_solution_node(
                item,
                coin_id_of(prev.coin),
                next.coin.parent_coin_info,
                next.coin.amount,
                prev_subtotal,
            ),
        ),
    }
}

/// What finishing the ring yields from member `i` on, carrying the
/// subtotal so far: each member must run (else the evaluation error),
/// stay within the ring's machine limits, have a subtotal that fits
/// the solution's signed field, and serialize.
pub open spec fn cat_model_from(
    asset_id: Seq<u8>,
    items: Seq<CatSpendItemV>,
    i: int,
    subtotal: int,
) -> Result<Seq<CoinSpendV>, DriverError>
    decreases items.len() - i,
{
    if i < 0 || i >= items.len() {
        Ok(seq![])
    } else {
        match crate::runner::output_conditions(items[i].inner_puzzle, items[i].inner_solution) {
            None => Err(DriverError::Eval),
            Some(conds) => if conds.len() > MAX_RING_SIZE {
                Err(DriverError::Serialization)
            } else {
                let delta = items[i].coin.amount - items[i].extra_delta - sum_created(conds);
                if !(i64::MIN <= subtotal <= i64::MAX) {
                    Err(DriverError::Serialization)
                } else if !serializable(cat_puzzle(asset_id, items[i].inner_puzzle))
                    || !serializable(
                    cat_solution_node(
                        items[i],
                        coin_id_of(
                            items[if i == 0 {
                                items.len() - 1
                            } else {
                                i - 1
                            }].coin,
                        ),
                        items[if i == items.len() - 1 {
                            0
                        } else {
                            i + 1
                        }].coin.parent_coin_info,
                        items[if i == items.len() - 1 {
                            0
                        } else {
                            i + 1
                        }].coin.amount,
                        subtotal as i64,
                    ),
                ) {
                    Err(DriverError::Serialization)
                } else {
                    match cat_model_from(asset_id, items, i + 1, subtotal + delta) {
                        Ok(rest) => Ok(
                            seq![cat_coin_spend(asset_id, items, i, subtotal as i64)] + rest,
                        ),
                        Err(e) => Err(e),
                    }
                }
            },
        }
    }
}

/// What finishing the whole ring yields.
pub open spec fn cat_model(asset_id: Seq<u8>, items: Seq<CatSpendItemV>) -> Result<
    Seq<CoinSpendV>,
    DriverError,
> {
    if items.len() > MAX_RING_SIZE {
        Err(DriverError::Serialization)
    } else {
        cat_model_from(asset_id, items, 0, 0)
    }
}

/// Builds one ring member's solution tree.
fn build_cat_solution(
    item: &CatSpendItem,
    prev_id: Vec<u8>,
    next_parent: Vec<u8>,
    next_amount: u64,
    prev_subtotal: i64,
) -> (r: Node)
    ensures
        r@ == cat_solution_node(item@, prev_id@, next_parent@, next_amount, prev_subtotal),
{
    let inner_ph = tree_hash(&item.inner_spend.puzzle);
    let mut lineage_items: Vec<Node> = Vec::new();
    lineage_items.push(Node::Atom(copy_bytes(&item.lineage_proof.parent_parent_coin_info)));
    lineage_items.push(Node::Atom(copy_bytes(&item.lineage_proof.parent_inner_puzzle_hash)));
    lineage_items.push(Node::from_u64(item.lineage_proof.parent_amount));
    proof {
        assert(lineage_items@.map_values(|n: Node| n@) =~= seq![
            NodeV::Atom(item@.lineage_parent),
            NodeV::Atom(item@.lineage_inner_ph),
            NodeV::int_atom(item@.lineage_amount),
        ]);
    }
    let lineage = Node::list(lineage_items);
    let mut coin_items: Vec<Node> = Vec::new();
    coin_items.push(Node::Atom(copy_bytes(&item.coin.parent_coin_info)));
    coin_items.push(Node::Atom(copy_bytes(&item.coin.puzzle_hash)));
    coin_items.push(Node::from_u64(item.coin.amount));
    proof {
        assert(coin_items@.map_values(|n: Node| n@) =~= seq![
            NodeV::Atom(item@.coin.parent_coin_info),
            NodeV::Atom(item@.coin.puzzle_hash),
            NodeV::int_atom(item@.coin.amount),
        ]);
    }
    let this_coin = Node::list(coin_items);
    let mut next_items: Vec<Node> = Vec::new();
    next_items.push(Node::Atom(next_parent));
    next_items.push(Node::Atom(inner_ph));
    next_items.push(Node::from_u64(next_amount));
    proof {
        assert(next_items@.map_values(|n: Node| n@) =~= seq![
            NodeV::Atom(next_parent@),
            NodeV::Atom(tree_hash_of(item@.inner_puzzle)),
            NodeV::int_atom(next_amount),
        ]);
    }
    let next_proof = Node::list(next_items);
    let mut items: Vec<Node> = Vec::new();
    items.push(item.inner_spend.solution.duplicate());
    items.push(lineage);
    items.push(Node::Atom(prev_id));
    items.push(this_coin);
    items.push(next_proof);
    items.push(Node::Atom(crate::intbytes::int_to_bytes_i64(prev_subtotal)));
    items.push(Node::Atom(crate::intbytes::int_to_bytes_i64(item.extra_delta)));
    proof {
        assert(items@.map_values(|n: Node| n@) =~= seq![
            item@.inner_solution,
            triple_proof_node(item@.lineage_parent, item@.lineage_inner_ph, item@.lineage_amount),
            NodeV::Atom(prev_id@),
            coin_node(item@.coin),
            triple_proof_node(next_parent@, tree_hash_of(item@.inner_puzzle), next_amount),
            NodeV::Atom(crate::intbytes::int_bytes_i64(prev_subtotal)),
            NodeV::Atom(crate::intbytes::int_bytes_i64(item@.extra_delta)),
        ]);
    }
    Node::list(items)
}

/// Sums what a condition list's creations send on.
fn sum_created_exec(conds: &Vec<crate::conditions::Condition>) -> (r: i128)
    requires
        conds@.len() <= MAX_RING_SIZE,
    ensures
        r == sum_created(conds@.map_values(|c: crate::conditions::Condition| c@)),
        0 <= r <= conds@.len() * 0xffff_ffff_ffff_ffff,
{
    let ghost condsv = conds@.map_values(|c: crate::conditions::Condition| c@);
    let mut sum: i128 = 0;
    let mut j: usize = 0;
    proof {
        assert(condsv.skip(0) =~= condsv);
    }
    while j < conds.len()
        invariant
            j <= conds@.len() <= MAX_RING_SIZE,
            condsv == conds@.map_values(|c: crate::conditions::Condition| c@),
            condsv.len() == conds@.len(),
            sum + sum_created(condsv.skip(j as int)) == sum_created(condsv),
            0 <= sum <= j * 0xffff_ffff_ffff_ffff,
        decreases conds@.len() - j,
    {
        proof {
            assert(condsv[j as int] == conds@[j as int]@);
            assert(condsv.skip(j as int).first() == condsv[j as int]);
            assert(condsv.skip(j as int).drop_first() =~= condsv.skip(j as int + 1));
        }
        match &conds[j] {
            crate::conditions::Condition::CreateCoin(cc) => {
                sum = sum + cc.amount as i128;
            },
            _ => {},
        }
        j += 1;
    }
    proof {
        assert(condsv.skip(condsv.len() as int) =~= Seq::<ConditionV>::empty());
    }
    sum
}

impl CatSpend {
    /// An empty ring for one issuance.
    pub fn new(asset_id: Vec<u8>) -> (r: CatSpend)
        ensures
            r.asset_id@ == asset_id@,
            r.cat_spends@.len() == 0,
    {
        CatSpend { asset_id, cat_spends: Vec::new() }
    }

    /// Adds one member to the ring.
    pub fn spend(
        self,
        coin: Coin,
        inner_spend: Spend,
        lineage_proof: LineageProof,
        extra_delta: i64,
    ) -> (r: CatSpend)
        ensures
            r.asset_id@ == self.asset_id@,
            r.cat_spends@.map_values(|it: CatSpendItem| it@) == self.cat_spends@.map_values(
                |it: CatSpendItem| it@,
            ).push(
                CatSpendItemV {
                    coin: coin@,
                    inner_puzzle: inner_spend.puzzle@,
                    inner_solution: inner_spend.solution@,
                    lineage_parent: lineage_proof.parent_parent_coin_info@,
                    lineage_inner_ph: lineage_proof.parent_inner_puzzle_hash@,
                    lineage_amount: lineage_proof.parent_amount,
                    extra_delta,
                },
            ),
    {
        let mut cat_spends = self.cat_spends;
        let ghost prev = cat_spends@.map_values(|it: CatSpendItem| it@);
        cat_spends.push(CatSpendItem { coin, inner_spend, lineage_proof, extra_delta });
        proof {
            assert(cat_spends@.map_values(|it: CatSpendItem| it@) =~= prev.push(
                cat_spends@.last()@,
            ));
        }
        CatSpend { asset_id: self.asset_id, cat_spends }
    }

    /// Builds the ring's spend records, per `cat_model`: re-runs each
    /// member's inner spend to account the value it sends on, threads
    /// the running subtotal through the ring, and serializes each
    /// member against its neighbours.
    #[verifier::rlimit(60)]
    pub fn finish(self) -> (r: Result<Vec<CoinSpend>, DriverError>)
        ensures
            match r {
                Ok(spends) => cat_model(
                    self.asset_id@,
                    self.cat_spends@.map_values(|it: CatSpendItem| it@),
                ) == Ok::<Seq<CoinSpendV>, DriverError>(
                    spends@.map_values(|cs: CoinSpend| cs@),
                ),
                Err(e) => cat_model(
                    self.asset_id@,
                    self.cat_spends@.map_values(|it: CatSpendItem| it@),
                ) == Err::<Seq<CoinSpendV>, DriverError>(e),
            },
    {
        let ghost itemsv = self.cat_spends@.map_values(|it: CatSpendItem| it@);
        if self.cat_spends.len() > MAX_RING_SIZE {
            return Err(DriverError::Serialization);
        }
        let len = self.cat_spends.len();
        let cat_mod_node = program_node_exec(CAT_TAG);
        let cat_hash = tree_hash(&cat_mod_node);
        let mut out: Vec<CoinSpend> = Vec::new();
        let mut subtotal: i128 = 0;
        let mut i: usize = 0;
        proof {
            assert(out@.map_values(|cs: CoinSpend| cs@) =~= Seq::<CoinSpendV>::empty());
            if let Ok(rest) = cat_model_from(self.asset_id@, itemsv, 0, 0) {
                assert(Seq::<CoinSpendV>::empty() + rest =~= rest);
            }
        }
        while i < len
            invariant
                i <= len == self.cat_spends@.len() <= MAX_RING_SIZE,
                itemsv == self.cat_spends@.map_values(|it: CatSpendItem| it@),
                itemsv.len() == self.cat_spends@.len(),
                cat_mod_node@ == cat_mod(),
                cat_hash@ == cat_mod_hash(),
                -0x200000000000000000000i128 * (i as i128) <= subtotal <= 0x200000000000000000000i128
                    * (i as i128),
                match cat_model_from(self.asset_id@, itemsv, i as int, subtotal as int) {
                    Ok(rest) => cat_model_from(self.asset_id@, itemsv, 0, 0) == Ok::<
                        Seq<CoinSpendV>,
                        DriverError,
                    >(out@.map_values(|cs: CoinSpend| cs@) + rest),
                    Err(e) => cat_model_from(self.asset_id@, itemsv, 0, 0) == Err::<
                        Seq<CoinSpendV>,
                        DriverError,
                    >(e),
                },
            decreases len - i,
        {
            let item = &self.cat_spends[i];
            proof {
                assert(itemsv[i as int] == self.cat_spends@[i as int]@);
            }
            let conds = match crate::runner::puzzle_conditions(
                &item.inner_spend.puzzle,
                &item.inner_spend.solution,
            ) {
                Ok(c) => c,
                Err(_) => {
                    return Err(DriverError::Eval);
                },
            };
            if conds.len() > MAX_RING_SIZE {
                return Err(DriverError::Serialization);
            }
            let created = sum_created_exec(&conds);
            let delta: i128 = item.coin.amount as i128 - item.extra_delta as i128 - created;
            if subtotal < i64::MIN as i128 || subtotal > i64::MAX as i128 {
                return Err(DriverError::Serialization);
            }
            let prev_subtotal: i64 = subtotal as i64;
            let prev_idx = if i == 0 {
                len - 1
            } else {
                i - 1
            };
            let next_idx = if i == len - 1 {
                0
            } else {
                i + 1
            };
            let prev_id = self.cat_spends[prev_idx].coin.coin_id();
            let next_parent = copy_bytes(&self.cat_spends[next_idx].coin.parent_coin_info);
            let next_amount = self.cat_spends[next_idx].coin.amount;
            proof {
                assert(itemsv[prev_idx as int] == self.cat_spends@[prev_idx as int]@);
                assert(itemsv[next_idx as int] == self.cat_spends@[next_idx as int]@);
            }
            let mut args: Vec<Node> = Vec::new();
            args.push(Node::Atom(copy_bytes(&cat_hash)));
            args.push(Node::Atom(copy_bytes(&self.asset_id)));
            args.push(item.inner_spend.puzzle.duplicate());
            proof {
                assert(args@.map_values(|a: Node| a@) =~= seq![
                    NodeV::Atom(cat_mod_hash()),
                    NodeV::Atom(self.asset_id@),
                    itemsv[i as int].inner_puzzle,
                ]);
            }
            let puzzle = cat_mod_node.duplicate().curry(args);
            let solution = build_cat_solution(item, prev_id, next_parent, next_amount, prev_subtotal);
            let pb = match serialize_node(&puzzle) {
                Some(b) => b,
                None => {
                    return Err(DriverError::Serialization);
                },
            };
            let sb = match serialize_node(&solution) {
                Some(b) => b,
                None => {
                    return Err(DriverError::Serialization);
                },
            };
            let ghost outv = out@.map_values(|cs: CoinSpend| cs@);
            out.push(CoinSpend::new(item.coin.duplicate(), pb, sb));
            proof {
                assert(out@.map_values(|cs: CoinSpend| cs@) =~= outv.push(
                    cat_coin_spend(self.asset_id@, itemsv, i as int, prev_subtotal),
                ));
                if let Ok(rest2) = cat_model_from(
                    self.asset_id@,
                    itemsv,
                    i as int + 1,
                    subtotal as int + delta as int,
                ) {
                    assert(outv + (seq![
                        cat_coin_spend(self.asset_id@, itemsv, i as int, prev_subtotal),
                    ] + rest2) =~= outv.push(
                        cat_coin_spend(self.asset_id@, itemsv, i as int, prev_subtotal),
                    ) + rest2);
                }
            }
            proof {
                assert(created <= 0xffffi128 * 0xffff_ffff_ffff_ffffi128);
                assert(0 <= item.coin.amount as i128 <= 0xffff_ffff_ffff_ffffi128);
                assert(-0x8000_0000_0000_0000i128 <= item.extra_delta as i128
                    <= 0x7fff_ffff_ffff_ffffi128);
                assert(-0x200000000000000000000i128 <= delta && delta
                    <= 0x200000000000000000000i128) by (nonlinear_arith)
                    requires
                        delta == item.coin.amount as i128 - item.extra_delta as i128 - created,
                        0 <= created <= 0xffffi128 * 0xffff_ffff_ffff_ffffi128,
                        0 <= item.coin.amount as i128 <= 0xffff_ffff_ffff_ffffi128,
                        -0x8000_0000_0000_0000i128 <= item.extra_delta as i128
                            <= 0x7fff_ffff_ffff_ffffi128,
                ;
                assert(0x200000000000000000000i128 * ((i + 1) as i128) == 0x200000000000000000000i128
                    * (i as i128) + 0x200000000000000000000i128) by (nonlinear_arith);
            }
            subtotal = subtotal + delta;
            i += 1;
        }
        proof {
            assert(out@.map_values(|cs: CoinSpend| cs@) + Seq::<CoinSpendV>::empty()
                =~= out@.map_values(|cs: CoinSpend| cs@));
        }
        Ok(out)
    }
}

} // verus!
