//! The recreation manifest and its memo encoding.
//!
//! A spend that changes an object's owner or authorization set
//! announces the new state out of band, as the memo list of its
//! successor-creating effect: the launcher id, the owner puzzle hash,
//! and two or three memos per delegated puzzle — a one-byte role tag,
//! the role's hash, and for an oracle its fee in minimal signed
//! big-endian form.  Decoding reads the same list back; a single
//! trailing memo that no field claims is ignored, as the chain's
//! readers have always done.

use vstd::prelude::*;

use crate::errors::DriverError;
use crate::intbytes::atom_u64;
use crate::intbytes::bytes_to_u64;
use crate::intbytes::int_bytes;
use crate::intbytes::int_to_bytes;
use crate::intbytes::lemma_int_bytes_roundtrip;
use crate::node::copy_bytes;

verus! {

/// The role tag of a delegated-puzzle memo group.
#[derive(Debug, PartialEq, Eq, Structural)]
pub enum HintType {
    AdminPuzzle,
    WriterPuzzle,
    OraclePuzzle,
}

impl HintType {
    /// The tag's one-byte wire value.
    pub open spec fn spec_value(self) -> u8 {
        match self {
            HintType::AdminPuzzle => 0,
            HintType::WriterPuzzle => 1,
            HintType::OraclePuzzle => 2,
        }
    }

    /// The tag's one-byte wire value.
    pub fn value(&self) -> (r: u8)
        ensures
            r == self.spec_value(),
    {
        match self {
            HintType::AdminPuzzle => 0,
            HintType::WriterPuzzle => 1,
            HintType::OraclePuzzle => 2,
        }
    }
}

/// One authorized alternate spend path of an object.
#[derive(Debug)]
pub enum DelegatedPuzzle {
    /// Full control under the given inner puzzle hash.
    Admin(Vec<u8>),
    /// Metadata-only control under the given inner puzzle hash.
    Writer(Vec<u8>),
    /// A fixed-fee announcement path: target puzzle hash and fee.
    Oracle(Vec<u8>, u64),
}

/// The mathematical shape of a delegated puzzle.
pub enum DelegatedPuzzleV {
    Admin(Seq<u8>),
    Writer(Seq<u8>),
    Oracle(Seq<u8>, u64),
}

impl View for DelegatedPuzzle {
    type V = DelegatedPuzzleV;

    open spec fn view(&self) -> DelegatedPuzzleV {
        match self {
            DelegatedPuzzle::Admin(h) => DelegatedPuzzleV::Admin(h@),
            DelegatedPuzzle::Writer(h) => DelegatedPuzzleV::Writer(h@),
            DelegatedPuzzle::Oracle(ph, fee) => DelegatedPuzzleV::Oracle(ph@, *fee),
        }
    }
}

impl DelegatedPuzzleV {
    /// The hash field is a 32-byte string.
    pub open spec fn wf(self) -> bool {
        match self {
            DelegatedPuzzleV::Admin(h) => h.len() == 32,
            DelegatedPuzzleV::Writer(h) => h.len() == 32,
            DelegatedPuzzleV::Oracle(ph, _) => ph.len() == 32,
        }
    }
}

impl DelegatedPuzzle {
    /// A field-for-field copy.
    pub fn duplicate(&self) -> (r: DelegatedPuzzle)
        ensures
            r@ == self@,
    {
        match self {
            DelegatedPuzzle::Admin(h) => DelegatedPuzzle::Admin(copy_bytes(h)),
            DelegatedPuzzle::Writer(h) => DelegatedPuzzle::Writer(copy_bytes(h)),
            DelegatedPuzzle::Oracle(ph, fee) => DelegatedPuzzle::Oracle(copy_bytes(ph), *fee),
        }
    }
}

/// The memo group one delegated puzzle encodes to.
pub open spec fn dp_memos(dp: DelegatedPuzzleV) -> Seq<Seq<u8>> {
    match dp {
        DelegatedPuzzleV::Admin(h) => seq![seq![0u8], h],
        DelegatedPuzzleV::Writer(h) => seq![seq![1u8], h],
        DelegatedPuzzleV::Oracle(ph, fee) => seq![seq![2u8], ph, int_bytes(fee)],
    }
}

/// The memo groups of a whole authorization set, in order.
pub open spec fn dps_memos(dps: Seq<DelegatedPuzzleV>) -> Seq<Seq<u8>>
    decreases dps.len(),
{
    if dps.len() == 0 {
        seq![]
    } else {
        dp_memos(dps.first()) + dps_memos(dps.drop_first())
    }
}

/// The full recreation-manifest memo list: launcher id, owner puzzle
/// hash, then the authorization set's memo groups.
pub open spec fn recreation_memos(
    launcher_id: Seq<u8>,
    owner_puzzle_hash: Seq<u8>,
    dps: Seq<DelegatedPuzzleV>,
) -> Seq<Seq<u8>> {
    seq![launcher_id, owner_puzzle_hash] + dps_memos(dps)
}

/// Reads the authorization set back from a memo list, starting at
/// position `i`.  Decoding stops when at most one memo is left; that
/// leftover, if any, is ignored.
pub open spec fn decode_dps(memos: Seq<Seq<u8>>, i: int) -> Result<
    Seq<DelegatedPuzzleV>,
    DriverError,
>
    decreases memos.len() - i,
{
    if i < 0 || memos.len() - i <= 1 {
        Ok(seq![])
    } else {
        let tag = memos[i];
        if tag == seq![0u8] || tag == seq![1u8] {
            let h = memos[i + 1];
            if h.len() != 32 {
                Err(DriverError::InvalidMemo)
            } else {
                match decode_dps(memos, i + 2) {
                    Ok(rest) => Ok(
                        seq![
                            if tag == seq![0u8] {
                                DelegatedPuzzleV::Admin(h)
                            } else {
                                DelegatedPuzzleV::Writer(h)
                            },
                        ] + rest,
                    ),
                    Err(e) => Err(e),
                }
            }
        } else if tag == seq![2u8] {
            if memos.len() - i < 3 {
                Err(DriverError::MissingMemo)
            } else {
                let ph = memos[i + 1];
                let fee_bytes = memos[i + 2];
                if ph.len() != 32 {
                    Err(DriverError::InvalidMemo)
                } else {
                    match atom_u64(fee_bytes) {
                        Some(fee) => match decode_dps(memos, i + 3) {
                            Ok(rest) => Ok(seq![DelegatedPuzzleV::Oracle(ph, fee)] + rest),
                            Err(e) => Err(e),
                        },
                        None => Err(DriverError::InvalidMemo),
                    }
                }
            }
        } else {
            Err(DriverError::InvalidMemo)
        }
    }
}

/// Encodes an authorization set's memo groups.
fn dps_memos_exec(dps: &Vec<DelegatedPuzzle>) -> (r: Vec<Vec<u8>>)
    ensures
        r@.map_values(|m: Vec<u8>| m@) == dps_memos(dps@.map_values(|d: DelegatedPuzzle| d@)),
{
    let ghost dpsv = dps@.map_values(|d: DelegatedPuzzle| d@);
    let mut out: Vec<Vec<u8>> = Vec::new();
    let mut i: usize = 0;
    proof {
        assert(out@.map_values(|m: Vec<u8>| m@) =~= Seq::<Seq<u8>>::empty());
        assert(dpsv.skip(0) =~= dpsv);
        assert(Seq::<Seq<u8>>::empty() + dps_memos(dpsv) =~= dps_memos(dpsv));
    }
    while i < dps.len()
        invariant
            i <= dps@.len(),
            dpsv == dps@.map_values(|d: DelegatedPuzzle| d@),
            dpsv.len() == dps@.len(),
            out@.map_values(|m: Vec<u8>| m@) + dps_memos(dpsv.skip(i as int)) =~= dps_memos(dpsv),
        decreases dps@.len() - i,
    {
        proof {
            assert(dpsv.skip(i as int).first() == dpsv[i as int]);
            assert(dpsv.skip(i as int).drop_first() =~= dpsv.skip(i as int + 1));
            assert(dpsv[i as int] == dps@[i as int]@);
        }
        let ghost outv = out@.map_values(|m: Vec<u8>| m@);
        match &dps[i] {
            DelegatedPuzzle::Admin(h) => {
                let mut tag: Vec<u8> = Vec::new();
                tag.push(0u8);
                assert(tag@ =~= seq![0u8]);
                out.push(tag);
                out.push(copy_bytes(h));
                proof {
                    assert(out@.map_values(|m: Vec<u8>| m@) =~= outv + dp_memos(dpsv[i as int]));
                }
            },
            DelegatedPuzzle::Writer(h) => {
                let mut tag: Vec<u8> = Vec::new();
                tag.push(1u8);
                assert(tag@ =~= seq![1u8]);
                out.push(tag);
                out.push(copy_bytes(h));
                proof {
                    assert(out@.map_values(|m: Vec<u8>| m@) =~= outv + dp_memos(dpsv[i as int]));
                }
            },
            DelegatedPuzzle::Oracle(ph, fee) => {
                let mut tag: Vec<u8> = Vec::new();
                tag.push(2u8);
                assert(tag@ =~= seq![2u8]);
                out.push(tag);
                out.push(copy_bytes(ph));
                out.push(int_to_bytes(*fee));
                proof {
                    assert(out@.map_values(|m: Vec<u8>| m@) =~= outv + dp_memos(dpsv[i as int]));
                }
            },
        }
        proof {
            assert(outv + (dp_memos(dpsv[i as int]) + dps_memos(dpsv.skip(i as int + 1))) =~= (outv
                + dp_memos(dpsv[i as int])) + dps_memos(dpsv.skip(i as int + 1)));
        }
        i += 1;
    }
    proof {
        assert(dps_memos(dpsv.skip(dpsv.len() as int)) =~= Seq::<Seq<u8>>::empty());
        assert(out@.map_values(|m: Vec<u8>| m@) + Seq::<Seq<u8>>::empty() =~= out@.map_values(
            |m: Vec<u8>| m@,
        ));
    }
    out
}

/// Builds the full recreation-manifest memo list.
pub fn encode_recreation_memos(
    launcher_id: &Vec<u8>,
    owner_puzzle_hash: &Vec<u8>,
    delegated_puzzles: &Vec<DelegatedPuzzle>,
) -> (r: Vec<Vec<u8>>)
    ensures
        r@.map_values(|m: Vec<u8>| m@) == recreation_memos(
            launcher_id@,
            owner_puzzle_hash@,
            delegated_puzzles@.map_values(|d: DelegatedPuzzle| d@),
        ),
{
    let mut out: Vec<Vec<u8>> = Vec::new();
    out.push(copy_bytes(launcher_id));
    out.push(copy_bytes(owner_puzzle_hash));
    let ghost head = out@.map_values(|m: Vec<u8>| m@);
    let rest = dps_memos_exec(delegated_puzzles);
    let mut i: usize = 0;
    let ghost restv = rest@.map_values(|m: Vec<u8>| m@);
    while i < rest.len()
        invariant
            i <= rest@.len(),
            restv == rest@.map_values(|m: Vec<u8>| m@),
            restv.len() == rest@.len(),
            head == seq![launcher_id@, owner_puzzle_hash@],
            out@.map_values(|m: Vec<u8>| m@) =~= head + restv.take(i as int),
        decreases rest@.len() - i,
    {
        let ghost outv = out@.map_values(|m: Vec<u8>| m@);
        out.push(copy_bytes(&rest[i]));
        proof {
            assert(restv[i as int] == rest@[i as int]@);
            assert(out@.map_values(|m: Vec<u8>| m@) =~= outv.push(restv[i as int]));
            assert(restv.take(i as int + 1) =~= restv.take(i as int).push(restv[i as int]));
        }
        i += 1;
    }
    proof {
        assert(restv.take(restv.len() as int) =~= restv);
        assert(head =~= seq![launcher_id@, owner_puzzle_hash@]);
    }
    out
}

/// Reads the authorization set back from a memo list, starting at
/// position `start`.
pub fn decode_delegated_puzzles(memos: &Vec<Vec<u8>>, start: usize) -> (r: Result<
    Vec<DelegatedPuzzle>,
    DriverError,
>)
    ensures
        match r {
            Ok(v) => decode_dps(memos@.map_values(|m: Vec<u8>| m@), start as int) == Ok::<
                Seq<DelegatedPuzzleV>,
                DriverError,
            >(v@.map_values(|d: DelegatedPuzzle| d@)),
            Err(e) => decode_dps(memos@.map_values(|m: Vec<u8>| m@), start as int) == Err::<
                Seq<DelegatedPuzzleV>,
                DriverError,
            >(e),
        },
    decreases memos@.len() - start,
{
    let ghost memosv = memos@.map_values(|m: Vec<u8>| m@);
    if memos.len() < 2 || start >= memos.len() - 1 {
        let v: Vec<DelegatedPuzzle> = Vec::new();
        proof {
            assert(v@.map_values(|d: DelegatedPuzzle| d@) =~= Seq::<DelegatedPuzzleV>::empty());
        }
        return Ok(v);
    }
    let tag = &memos[start];
    proof {
        assert(memosv[start as int] == memos@[start as int]@);
        assert(memosv[start as int + 1] == memos@[start as int + 1]@);
    }
    if tag.len() == 1 && (tag[0] == 0 || tag[0] == 1) {
        proof {
            if tag@[0] == 0 {
                assert(tag@ =~= seq![0u8]);
            } else {
                assert(tag@ =~= seq![1u8]);
            }
        }
        let h = &memos[start + 1];
        if h.len() != 32 {
            return Err(DriverError::InvalidMemo);
        }
        let rest = decode_delegated_puzzles(memos, start + 2)?;
        let ghost restv = rest@.map_values(|d: DelegatedPuzzle| d@);
        let mut rest = rest;
        let dp = if tag[0] == 0 {
            DelegatedPuzzle::Admin(copy_bytes(h))
        } else {
            DelegatedPuzzle::Writer(copy_bytes(h))
        };
        rest.insert(0, dp);
        proof {
            assert(rest@.map_values(|d: DelegatedPuzzle| d@) =~= seq![rest@[0]@] + restv);
        }
        Ok(rest)
    } else if tag.len() == 1 && tag[0] == 2 {
        proof {
            assert(tag@ =~= seq![2u8]);
        }
        if memos.len() - start < 3 {
            return Err(DriverError::MissingMemo);
        }
        proof {
            assert(memosv[start as int + 2] == memos@[start as int + 2]@);
        }
        let ph = &memos[start + 1];
        if ph.len() != 32 {
            return Err(DriverError::InvalidMemo);
        }
        let fee = match bytes_to_u64(&memos[start + 2]) {
            Some(fee) => fee,
            None => {
                return Err(DriverError::InvalidMemo);
            },
        };
        let rest = decode_delegated_puzzles(memos, start + 3)?;
        let ghost restv = rest@.map_values(|d: DelegatedPuzzle| d@);
        let mut rest = rest;
        rest.insert(0, DelegatedPuzzle::Oracle(copy_bytes(ph), fee));
        proof {
            assert(rest@.map_values(|d: DelegatedPuzzle| d@) =~= seq![rest@[0]@] + restv);
        }
        Ok(rest)
    } else {
        proof {
            assert(tag@ != seq![0u8] && tag@ != seq![1u8] && tag@ != seq![2u8]) by {
                if tag@ == seq![0u8] {
                    assert(tag@.len() == 1 && tag@[0] == 0);
                }
                if tag@ == seq![1u8] {
                    assert(tag@.len() == 1 && tag@[0] == 1);
                }
                if tag@ == seq![2u8] {
                    assert(tag@.len() == 1 && tag@[0] == 2);
                }
            }
        }
        Err(DriverError::InvalidMemo)
    }
}

/// Decoding a manifest's memo list yields the manifest it was built
/// from: the launcher id and owner stand first, and the authorization
/// set reads back group by group.  This covers the empty set (the
/// two-memo form) as well.
pub proof fn lemma_recreation_roundtrip(
    launcher_id: Seq<u8>,
    owner_puzzle_hash: Seq<u8>,
    dps: Seq<DelegatedPuzzleV>,
)
    requires
        forall|i: int| 0 <= i < dps.len() ==> (#[trigger] dps[i]).wf(),
    ensures
        recreation_memos(launcher_id, owner_puzzle_hash, dps)[0] == launcher_id,
        recreation_memos(launcher_id, owner_puzzle_hash, dps)[1] == owner_puzzle_hash,
        decode_dps(recreation_memos(launcher_id, owner_puzzle_hash, dps), 2) == Ok::<
            Seq<DelegatedPuzzleV>,
            DriverError,
        >(dps),
{
    let prefix = seq![launcher_id, owner_puzzle_hash];
    lemma_decode_encoded(prefix, dps);
    assert(prefix + dps_memos(dps) =~= recreation_memos(launcher_id, owner_puzzle_hash, dps));
}

/// Decoding after any prefix reads the encoded groups back.
proof fn lemma_decode_encoded(prefix: Seq<Seq<u8>>, dps: Seq<DelegatedPuzzleV>)
    requires
        forall|i: int| 0 <= i < dps.len() ==> (#[trigger] dps[i]).wf(),
    ensures
        decode_dps(prefix + dps_memos(dps), prefix.len() as int) == Ok::<
            Seq<DelegatedPuzzleV>,
            DriverError,
        >(dps),
    decreases dps.len(),
{
    let memos = prefix + dps_memos(dps);
    let p = prefix.len() as int;
    if dps.len() == 0 {
        assert(memos.len() - p == 0);
        assert(dps =~= Seq::<DelegatedPuzzleV>::empty());
    } else {
        let first = dps.first();
        let group = dp_memos(first);
        let prefix2 = prefix + group;
        assert(dps[0].wf());
        assert(first.wf());
        lemma_decode_encoded(prefix2, dps.drop_first());
        assert(prefix2 + dps_memos(dps.drop_first()) =~= memos);
        assert(memos.len() - p >= 2);
        match first {
            DelegatedPuzzleV::Admin(h) => {
                assert(memos[p] == seq![0u8] && memos[p + 1] == h);
                assert(decode_dps(memos, p + 2) == Ok::<Seq<DelegatedPuzzleV>, DriverError>(
                    dps.drop_first(),
                ));
                assert(seq![DelegatedPuzzleV::Admin(h)] + dps.drop_first() =~= dps);
            },
            DelegatedPuzzleV::Writer(h) => {
                assert(memos[p] == seq![1u8] && memos[p + 1] == h);
                assert(seq![1u8] != seq![0u8]) by {
                    assert(seq![1u8][0] == 1u8);
                    assert(seq![0u8][0] == 0u8);
                }
                assert(decode_dps(memos, p + 2) == Ok::<Seq<DelegatedPuzzleV>, DriverError>(
                    dps.drop_first(),
                ));
                assert(seq![DelegatedPuzzleV::Writer(h)] + dps.drop_first() =~= dps);
            },
            DelegatedPuzzleV::Oracle(ph, fee) => {
                assert(memos[p] == seq![2u8] && memos[p + 1] == ph && memos[p + 2] == int_bytes(
                    fee,
                ));
                assert(seq![2u8] != seq![0u8] && seq![2u8] != seq![1u8]) by {
                    assert(seq![2u8][0] == 2u8);
                    assert(seq![0u8][0] == 0u8);
                    assert(seq![1u8][0] == 1u8);
                }
                lemma_int_bytes_roundtrip(fee);
                assert(decode_dps(memos, p + 3) == Ok::<Seq<DelegatedPuzzleV>, DriverError>(
                    dps.drop_first(),
                ));
                assert(seq![DelegatedPuzzleV::Oracle(ph, fee)] + dps.drop_first() =~= dps);
            },
        }
    }
}

} // verus!
