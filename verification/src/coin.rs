//! Coins and spends.
//!
//! A coin is a value cell identified by the hash of its parent coin's
//! id, its puzzle hash and its amount; it is unspent until a spend
//! record reveals its puzzle and a solution.  The spend record carries
//! the two programs in wire form, byte-exact as the ledger stores them.

use vstd::prelude::*;

use crate::hashing::sha256;
use crate::hashing::sha256_of;
use crate::intbytes::int_bytes;
use crate::intbytes::int_to_bytes;
use crate::node::append_bytes;
use crate::node::bytes_eq;

verus! {

/// A value cell of the ledger.
#[derive(Debug)]
pub struct Coin {
    pub parent_coin_info: Vec<u8>,
    pub puzzle_hash: Vec<u8>,
    pub amount: u64,
}

/// The mathematical shape of a coin.
pub struct CoinV {
    pub parent_coin_info: Seq<u8>,
    pub puzzle_hash: Seq<u8>,
    pub amount: u64,
}

impl View for Coin {
    type V = CoinV;

    open spec fn view(&self) -> CoinV {
        CoinV {
            parent_coin_info: self.parent_coin_info@,
            puzzle_hash: self.puzzle_hash@,
            amount: self.amount,
        }
    }
}

/// A coin's identity: the hash of its three fields, the amount in
/// minimal signed big-endian form.
pub open spec fn coin_id_of(c: CoinV) -> Seq<u8> {
    sha256_of(c.parent_coin_info + c.puzzle_hash + int_bytes(c.amount))
}

impl CoinV {
    /// Both hash fields are 32-byte strings.
    pub open spec fn wf(self) -> bool {
        self.parent_coin_info.len() == 32 && self.puzzle_hash.len() == 32
    }
}

impl Coin {
    pub fn new(parent_coin_info: Vec<u8>, puzzle_hash: Vec<u8>, amount: u64) -> (r: Coin)
        ensures
            r@ == (CoinV { parent_coin_info: parent_coin_info@, puzzle_hash: puzzle_hash@, amount }),
    {
        Coin { parent_coin_info, puzzle_hash, amount }
    }

    /// This coin's identity.
    pub fn coin_id(&self) -> (r: Vec<u8>)
        ensures
            r@ == coin_id_of(self@),
            r@.len() == 32,
    {
        let mut buf: Vec<u8> = Vec::new();
        append_bytes(&mut buf, &self.parent_coin_info);
        append_bytes(&mut buf, &self.puzzle_hash);
        let amount_bytes = int_to_bytes(self.amount);
        append_bytes(&mut buf, &amount_bytes);
        proof {
            assert(Seq::<u8>::empty() + self.parent_coin_info@ =~= self.parent_coin_info@);
        }
        sha256(&buf)
    }

    /// A field-for-field copy.
    pub fn duplicate(&self) -> (r: Coin)
        ensures
            r@ == self@,
    {
        let mut parent: Vec<u8> = Vec::new();
        append_bytes(&mut parent, &self.parent_coin_info);
        let mut ph: Vec<u8> = Vec::new();
        append_bytes(&mut ph, &self.puzzle_hash);
        proof {
            assert(Seq::<u8>::empty() + self.parent_coin_info@ =~= self.parent_coin_info@);
            assert(Seq::<u8>::empty() + self.puzzle_hash@ =~= self.puzzle_hash@);
        }
        Coin { parent_coin_info: parent, puzzle_hash: ph, amount: self.amount }
    }

    /// Field-for-field equality.
    pub fn equals(&self, other: &Coin) -> (r: bool)
        ensures
            r == (self@ == other@),
    {
        let r = bytes_eq(&self.parent_coin_info, &other.parent_coin_info) && bytes_eq(
            &self.puzzle_hash,
            &other.puzzle_hash,
        ) && self.amount == other.amount;
        r
    }
}

/// The identity of an announcement a coin makes: the hash of the
/// maker's id and the announced message.
pub open spec fn announcement_of(coin_id: Seq<u8>, message: Seq<u8>) -> Seq<u8> {
    sha256_of(coin_id + message)
}

/// Computes an announcement's identity.
pub fn announcement_id(coin_id: &Vec<u8>, message: &Vec<u8>) -> (r: Vec<u8>)
    ensures
        r@ == announcement_of(coin_id@, message@),
        r@.len() == 32,
{
    let mut buf: Vec<u8> = Vec::new();
    append_bytes(&mut buf, coin_id);
    append_bytes(&mut buf, message);
    proof {
        assert(Seq::<u8>::empty() + coin_id@ =~= coin_id@);
    }
    sha256(&buf)
}

/// A historical spend record: the spent coin, its revealed puzzle and
/// the solution, both in wire form.
#[derive(Debug)]
pub struct CoinSpend {
    pub coin: Coin,
    pub puzzle_reveal: Vec<u8>,
    pub solution: Vec<u8>,
}

/// The mathematical shape of a spend record.
pub struct CoinSpendV {
    pub coin: CoinV,
    pub puzzle_reveal: Seq<u8>,
    pub solution: Seq<u8>,
}

impl View for CoinSpend {
    type V = CoinSpendV;

    open spec fn view(&self) -> CoinSpendV {
        CoinSpendV { coin: self.coin@, puzzle_reveal: self.puzzle_reveal@, solution: self.solution@ }
    }
}

impl CoinSpend {
    pub fn new(coin: Coin, puzzle_reveal: Vec<u8>, solution: Vec<u8>) -> (r: CoinSpend)
        ensures
            r@ == (CoinSpendV {
                coin: coin@,
                puzzle_reveal: puzzle_reveal@,
                solution: solution@,
            }),
    {
        CoinSpend { coin, puzzle_reveal, solution }
    }
}

} // verus!
