//! The puzzle execution facade.
//!
//! Running a program against a solution is the one external capability
//! the driver consumes: a deterministic, cost-bounded evaluation that
//! yields an output value or fails.  The run itself is taken on trust;
//! everything around it — wire codec, condition classification, coin
//! bookkeeping — is this crate's verified code.

use vstd::prelude::*;

use crate::codec::deser;
use crate::codec::deserialize_node;
use crate::codec::ser;
use crate::codec::serializable;
use crate::codec::serialize_node;
use crate::coin::Coin;
use crate::coin::CoinSpend;
use crate::coin::CoinSpendV;
use crate::coin::CoinV;
use crate::coin::coin_id_of;
use crate::conditions::Condition;
use crate::conditions::ConditionV;
use crate::conditions::conditions_of;
use crate::conditions::parse_conditions;
use crate::node::Node;
use crate::node::NodeV;

verus! {

/// The fixed cost ceiling every run gets.
pub const MAX_RUN_COST: u64 = 11_000_000_000;

/// What running a program (in wire form) against an environment under
/// a cost ceiling yields: the output in wire form, or nothing when the
/// input does not parse, evaluation fails, or the budget is exceeded.
pub uninterp spec fn clvm_run(puzzle: Seq<u8>, solution: Seq<u8>, max_cost: u64) -> Option<
    Seq<u8>,
>;

/// Relies on clvmr: `node_from_bytes` on the two wire forms,
/// `run_program` under the standard operator set with the given cost
/// ceiling, `node_to_bytes` on the output.  The outcome, success or
/// failure, depends on the three arguments alone.
#[verifier::external_body]
fn run_serialized(puzzle: &Vec<u8>, solution: &Vec<u8>, max_cost: u64) -> (r: Option<Vec<u8>>)
    ensures
        match r {
            Some(out) => clvm_run(puzzle@, solution@, max_cost) == Some(out@),
            None => clvm_run(puzzle@, solution@, max_cost) is None,
        },
{
    let mut allocator = clvmr::Allocator::new();
    let p = clvmr::serde::node_from_bytes(&mut allocator, puzzle).ok()?;
    let s = clvmr::serde::node_from_bytes(&mut allocator, solution).ok()?;
    let dialect = clvmr::ChiaDialect::default();
    let clvmr::reduction::Reduction(_cost, out) = clvmr::run_program(
        &mut allocator,
        &dialect,
        p,
        s,
        max_cost,
    ).ok()?;
    clvmr::serde::node_to_bytes(&allocator, out).ok()
}

/// Evaluation failed, or its output was not a readable value.
#[derive(Debug)]
pub enum ConditionError {
    Eval,
    Clvm,
}

/// A spend record of a bundle could not be read or run.
#[derive(Debug)]
pub enum ParseBundleError {
    Condition(ConditionError),
    ToClvm,
    From,
}

/// The output value of running a puzzle against a solution under the
/// standard cost ceiling.
pub open spec fn puzzle_output(p: NodeV, s: NodeV) -> Option<NodeV> {
    if serializable(p) && serializable(s) {
        match clvm_run(ser(p), ser(s), MAX_RUN_COST) {
            Some(out) => deser(out),
            None => None,
        }
    } else {
        None
    }
}

/// Runs a puzzle against a solution under the standard cost ceiling.
pub fn run_puzzle(puzzle: &Node, solution: &Node) -> (r: Result<Node, ConditionError>)
    ensures
        match r {
            Ok(out) => puzzle_output(puzzle@, solution@) == Some(out@),
            Err(_) => puzzle_output(puzzle@, solution@) is None,
        },
{
    let pb = match serialize_node(puzzle) {
        Some(pb) => pb,
        None => {
            return Err(ConditionError::Eval);
        },
    };
    let sb = match serialize_node(solution) {
        Some(sb) => sb,
        None => {
            return Err(ConditionError::Eval);
        },
    };
    match run_serialized(&pb, &sb, MAX_RUN_COST) {
        Some(out) => match deserialize_node(&out) {
            Some(n) => Ok(n),
            None => Err(ConditionError::Clvm),
        },
        None => Err(ConditionError::Eval),
    }
}

/// The conditions a puzzle run emits.
pub open spec fn output_conditions(p: NodeV, s: NodeV) -> Option<Seq<ConditionV>> {
    match puzzle_output(p, s) {
        Some(out) => conditions_of(out),
        None => None,
    }
}

/// Runs a puzzle and classifies every condition it emits.
pub fn puzzle_conditions(puzzle: &Node, solution: &Node) -> (r: Result<
    Vec<Condition>,
    ConditionError,
>)
    ensures
        match r {
            Ok(v) => output_conditions(puzzle@, solution@) == Some(
                v@.map_values(|c: Condition| c@),
            ),
            Err(_) => output_conditions(puzzle@, solution@) is None,
        },
{
    let out = run_puzzle(puzzle, solution)?;
    match parse_conditions(&out) {
        Some(v) => Ok(v),
        None => Err(ConditionError::Clvm),
    }
}

/// The conditions a spend record's puzzle emits for its solution.
pub open spec fn spend_conditions(cs: CoinSpendV) -> Option<Seq<ConditionV>> {
    match (deser(cs.puzzle_reveal), deser(cs.solution)) {
        (Some(p), Some(s)) => output_conditions(p, s),
        _ => None,
    }
}

/// The coins a list of classified conditions creates, under a parent.
pub open spec fn created_from(conds: Seq<ConditionV>, parent: Seq<u8>) -> Seq<CoinV>
    decreases conds.len(),
{
    if conds.len() == 0 {
        seq![]
    } else {
        let rest = created_from(conds.drop_first(), parent);
        match conds.first() {
            ConditionV::CreateCoin(cc) => seq![
                CoinV {
                    parent_coin_info: parent,
                    puzzle_hash: cc.puzzle_hash,
                    amount: cc.amount,
                },
            ] + rest,
            _ => rest,
        }
    }
}

/// Every coin the bundle's spends create, or nothing when a spend does
/// not parse or run.
pub open spec fn all_created(spends: Seq<CoinSpendV>) -> Option<Seq<CoinV>>
    decreases spends.len(),
{
    if spends.len() == 0 {
        Some(seq![])
    } else {
        match spend_conditions(spends.first()) {
            Some(conds) => match all_created(spends.drop_first()) {
                Some(rest) => Some(
                    created_from(conds, coin_id_of(spends.first().coin)) + rest,
                ),
                None => None,
            },
            None => None,
        }
    }
}

/// The spent coins that the bundle itself did not create.
pub open spec fn keep_non_created(coins: Seq<CoinV>, created: Seq<CoinV>) -> Seq<CoinV>
    decreases coins.len(),
{
    if coins.len() == 0 {
        seq![]
    } else {
        let rest = keep_non_created(coins.drop_first(), created);
        if created.contains(coins.first()) {
            rest
        } else {
            seq![coins.first()] + rest
        }
    }
}

/// The coins of a bundle that outlive it: every spent coin that no
/// spend of the same bundle created.
pub open spec fn non_ephemeral(spends: Seq<CoinSpendV>) -> Option<Seq<CoinV>> {
    match all_created(spends) {
        Some(created) => Some(
            keep_non_created(spends.map_values(|cs: CoinSpendV| cs.coin), created),
        ),
        None => None,
    }
}

proof fn lemma_created_unfold(conds: Seq<ConditionV>, parent: Seq<u8>, i: int)
    requires
        0 <= i < conds.len(),
    ensures
        created_from(conds.skip(i), parent) == (match conds[i] {
            ConditionV::CreateCoin(cc) => seq![
                CoinV {
                    parent_coin_info: parent,
                    puzzle_hash: cc.puzzle_hash,
                    amount: cc.amount,
                },
            ] + created_from(conds.skip(i + 1), parent),
            _ => created_from(conds.skip(i + 1), parent),
        }),
{
    assert(conds.skip(i).first() == conds[i]);
    assert(conds.skip(i).drop_first() =~= conds.skip(i + 1));
}

proof fn lemma_all_created_unfold(spends: Seq<CoinSpendV>, i: int)
    requires
        0 <= i < spends.len(),
    ensures
        all_created(spends.skip(i)) == (match spend_conditions(spends[i]) {
            Some(conds) => match all_created(spends.skip(i + 1)) {
                Some(rest) => Some(
                    created_from(conds, coin_id_of(spends[i].coin)) + rest,
                ),
                None => None,
            },
            None => None,
        }),
{
    assert(spends.skip(i).first() == spends[i]);
    assert(spends.skip(i).drop_first() =~= spends.skip(i + 1));
}

proof fn lemma_keep_unfold(coins: Seq<CoinV>, created: Seq<CoinV>, i: int)
    requires
        0 <= i < coins.len(),
    ensures
        keep_non_created(coins.skip(i), created) == (if created.contains(coins[i]) {
            keep_non_created(coins.skip(i + 1), created)
        } else {
            seq![coins[i]] + keep_non_created(coins.skip(i + 1), created)
        }),
{
    assert(coins.skip(i).first() == coins[i]);
    assert(coins.skip(i).drop_first() =~= coins.skip(i + 1));
}

/// Whether the list holds a coin with these fields.
fn contains_coin(v: &Vec<Coin>, c: &Coin) -> (r: bool)
    ensures
        r == v@.map_values(|x: Coin| x@).contains(c@),
{
    let ghost views = v@.map_values(|x: Coin| x@);
    let mut i: usize = 0;
    while i < v.len()
        invariant
            i <= v.len(),
            views == v@.map_values(|x: Coin| x@),
            forall|j: int| 0 <= j < i ==> views[j] != c@,
        decreases v.len() - i,
    {
        if v[i].equals(c) {
            assert(views[i as int] == c@);
            return true;
        }
        i += 1;
    }
    proof {
        if views.contains(c@) {
            let k = choose|k: int| 0 <= k < views.len() && views[k] == c@;
            assert(views[k] != c@);
        }
    }
    false
}

/// Finds the coins of a bundle that outlive it: re-runs every spend,
/// collects everything the bundle creates, and keeps each spent coin
/// the bundle did not itself create.  Fails when a spend's programs do
/// not parse or do not run.
pub fn non_ephemeral_coins(coin_spends: &Vec<CoinSpend>) -> (r: Result<Vec<Coin>, ParseBundleError>)
    ensures
        match r {
            Ok(v) => non_ephemeral(coin_spends@.map_values(|cs: CoinSpend| cs@)) == Some(
                v@.map_values(|c: Coin| c@),
            ),
            Err(_) => non_ephemeral(coin_spends@.map_values(|cs: CoinSpend| cs@)) is None,
        },
{
    let ghost spendsv = coin_spends@.map_values(|cs: CoinSpend| cs@);
    let mut created: Vec<Coin> = Vec::new();
    let mut i: usize = 0;
    proof {
        assert(created@.map_values(|c: Coin| c@) =~= Seq::<CoinV>::empty());
        assert(spendsv.skip(0) =~= spendsv);
        if let Some(rest) = all_created(spendsv) {
            assert(Seq::<CoinV>::empty() + rest =~= rest);
        }
    }
    while i < coin_spends.len()
        invariant
            i <= coin_spends.len(),
            spendsv == coin_spends@.map_values(|cs: CoinSpend| cs@),
            spendsv.len() == coin_spends@.len(),
            match all_created(spendsv.skip(i as int)) {
                Some(rest) => all_created(spendsv) == Some(
                    created@.map_values(|c: Coin| c@) + rest,
                ),
                None => all_created(spendsv) is None,
            },
        decreases coin_spends.len() - i,
    {
        let cs = &coin_spends[i];
        proof {
            assert(spendsv[i as int] == cs@);
            lemma_all_created_unfold(spendsv, i as int);
        }
        let puzzle = match deserialize_node(&cs.puzzle_reveal) {
            Some(p) => p,
            None => {
                return Err(ParseBundleError::ToClvm);
            },
        };
        let solution = match deserialize_node(&cs.solution) {
            Some(s) => s,
            None => {
                return Err(ParseBundleError::ToClvm);
            },
        };
        let conds = match puzzle_conditions(&puzzle, &solution) {
            Ok(c) => c,
            Err(e) => {
                return Err(ParseBundleError::Condition(e));
            },
        };
        let parent = cs.coin.coin_id();
        let ghost condsv = conds@.map_values(|c: Condition| c@);
        let ghost created_before = created@.map_values(|c: Coin| c@);
        let mut j: usize = 0;
        proof {
            assert(condsv.skip(0) =~= condsv);
            assert(created_before + created_from(condsv, parent@) =~= created_before
                + created_from(condsv.skip(0), parent@));
        }
        while j < conds.len()
            invariant
                j <= conds.len(),
                condsv == conds@.map_values(|c: Condition| c@),
                condsv.len() == conds@.len(),
                parent@ == coin_id_of(spendsv[i as int].coin),
                i < spendsv.len(),
                spendsv[i as int].coin == cs@.coin,
                created@.map_values(|c: Coin| c@) + created_from(condsv.skip(j as int), parent@)
                    =~= created_before + created_from(condsv, parent@),
            decreases conds.len() - j,
        {
            proof {
                lemma_created_unfold(condsv, parent@, j as int);
            }
            match &conds[j] {
                Condition::CreateCoin(cc) => {
                    let coin = Coin::new(
                        crate::node::copy_bytes(&parent),
                        crate::node::copy_bytes(&cc.puzzle_hash),
                        cc.amount,
                    );
                    proof {
                        assert(condsv[j as int] == conds@[j as int]@);
                        assert(coin@ == (CoinV {
                            parent_coin_info: parent@,
                            puzzle_hash: cc.puzzle_hash@,
                            amount: cc.amount,
                        }));
                    }
                    created.push(coin);
                },
                _ => {
                    proof {
                        assert(condsv[j as int] == conds@[j as int]@);
                    }
                },
            }
            j += 1;
        }
        proof {
            assert(created_from(condsv.skip(condsv.len() as int), parent@) =~= Seq::<
                CoinV,
            >::empty());
            assert(created@.map_values(|c: Coin| c@) =~= created_before + created_from(
                condsv,
                parent@,
            ));
            if let Some(rest2) = all_created(spendsv.skip(i as int + 1)) {
                assert(created_before + (created_from(condsv, parent@) + rest2)
                    =~= (created_before + created_from(condsv, parent@)) + rest2);
            }
        }
        i += 1;
    }
    proof {
        assert(all_created(spendsv.skip(spendsv.len() as int)) == Some(Seq::<CoinV>::empty()));
        assert(created@.map_values(|c: Coin| c@) + Seq::<CoinV>::empty() =~= created@.map_values(
            |c: Coin| c@,
        ));
    }
    let ghost createdv = created@.map_values(|c: Coin| c@);
    let ghost coinsv = spendsv.map_values(|cs: CoinSpendV| cs.coin);
    let mut out: Vec<Coin> = Vec::new();
    let mut i: usize = 0;
    proof {
        assert(out@.map_values(|c: Coin| c@) =~= Seq::<CoinV>::empty());
        assert(coinsv.skip(0) =~= coinsv);
        assert(Seq::<CoinV>::empty() + keep_non_created(coinsv, createdv) =~= keep_non_created(
            coinsv,
            createdv,
        ));
    }
    while i < coin_spends.len()
        invariant
            i <= coin_spends.len(),
            spendsv == coin_spends@.map_values(|cs: CoinSpend| cs@),
            spendsv.len() == coin_spends@.len(),
            createdv == created@.map_values(|c: Coin| c@),
            coinsv == spendsv.map_values(|cs: CoinSpendV| cs.coin),
            coinsv.len() == spendsv.len(),
            keep_non_created(coinsv, createdv) =~= out@.map_values(|c: Coin| c@)
                + keep_non_created(coinsv.skip(i as int), createdv),
        decreases coin_spends.len() - i,
    {
        proof {
            lemma_keep_unfold(coinsv, createdv, i as int);
            assert(coinsv[i as int] == coin_spends@[i as int]@.coin);
        }
        let c = &coin_spends[i].coin;
        if !contains_coin(&created, c) {
            out.push(c.duplicate());
        }
        i += 1;
    }
    proof {
        assert(keep_non_created(coinsv.skip(coinsv.len() as int), createdv) =~= Seq::<
            CoinV,
        >::empty());
        assert(out@.map_values(|c: Coin| c@) + Seq::<CoinV>::empty() =~= out@.map_values(
            |c: Coin| c@,
        ));
    }
    Ok(out)
}

} // verus!
