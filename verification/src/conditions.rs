//! Effects emitted by puzzle runs.
//!
//! A puzzle run returns a list of conditions, each a list headed by an
//! opcode atom.  The driver reads three of them — coin creation (51),
//! the metadata update instruction (-24, written `0xe8`), and the
//! coin-announcement assertion (61) — and carries every other
//! condition through untouched.

use vstd::prelude::*;

use crate::curry::is_nil;
use crate::curry::is_op;
use crate::curry::op_atom;
use crate::curry::op_node;
use crate::intbytes::atom_u64;
use crate::intbytes::bytes_to_u64;
use crate::node::Node;
use crate::node::NodeV;
use crate::node::copy_bytes;

verus! {

/// Opcode of the coin-creation condition.
pub const CREATE_COIN: u8 = 51;

/// Opcode of the coin-announcement assertion.
pub const ASSERT_COIN_ANNOUNCEMENT: u8 = 61;

/// Opcode byte of the metadata-update condition: -24 in minimal signed
/// form.
pub const NEW_METADATA_OPCODE: u8 = 0xe8;

/// A coin-creation effect.
#[derive(Debug)]
pub struct CreateCoin {
    pub puzzle_hash: Vec<u8>,
    pub amount: u64,
    pub memos: Vec<Vec<u8>>,
}

/// The mathematical shape of a coin-creation effect.
pub struct CreateCoinV {
    pub puzzle_hash: Seq<u8>,
    pub amount: u64,
    pub memos: Seq<Seq<u8>>,
}

impl View for CreateCoin {
    type V = CreateCoinV;

    open spec fn view(&self) -> CreateCoinV {
        CreateCoinV {
            puzzle_hash: self.puzzle_hash@,
            amount: self.amount,
            memos: self.memos@.map_values(|m: Vec<u8>| m@),
        }
    }
}

/// A metadata-update instruction: an updater program and its solution.
#[derive(Debug)]
pub struct NewMetadata {
    pub updater_reveal: Node,
    pub updater_solution: Node,
}

/// The mathematical shape of a metadata-update instruction.
pub struct NewMetadataV {
    pub updater_reveal: NodeV,
    pub updater_solution: NodeV,
}

impl View for NewMetadata {
    type V = NewMetadataV;

    open spec fn view(&self) -> NewMetadataV {
        NewMetadataV {
            updater_reveal: self.updater_reveal@,
            updater_solution: self.updater_solution@,
        }
    }
}

/// One emitted effect.
#[derive(Debug)]
pub enum Condition {
    CreateCoin(CreateCoin),
    NewMetadata(NewMetadata),
    AssertCoinAnnouncement(Vec<u8>),
    Other(Node),
}

/// The mathematical shape of an effect.
pub enum ConditionV {
    CreateCoin(CreateCoinV),
    NewMetadata(NewMetadataV),
    AssertCoinAnnouncement(Seq<u8>),
    Other(NodeV),
}

impl View for Condition {
    type V = ConditionV;

    open spec fn view(&self) -> ConditionV {
        match self {
            Condition::CreateCoin(c) => ConditionV::CreateCoin(c@),
            Condition::NewMetadata(m) => ConditionV::NewMetadata(m@),
            Condition::AssertCoinAnnouncement(a) => ConditionV::AssertCoinAnnouncement(a@),
            Condition::Other(n) => ConditionV::Other(n@),
        }
    }
}

/// The items of a proper list whose items are all atoms.
pub open spec fn atoms_list(n: NodeV) -> Option<Seq<Seq<u8>>>
    decreases n,
{
    match n {
        NodeV::Atom(b) => if b.len() == 0 {
            Some(seq![])
        } else {
            None
        },
        NodeV::Pair(h, t) => match *h {
            NodeV::Atom(hb) => match atoms_list(*t) {
                Some(rest) => Some(seq![hb] + rest),
                None => None,
            },
            NodeV::Pair(_, _) => None,
        },
    }
}

/// Reads a node as a coin-creation condition: `(51 puzzle_hash amount)`
/// with an optional fourth element holding the memo list.  The puzzle
/// hash must be a 32-byte atom and the amount a non-negative 64-bit
/// integer atom; memos must be a proper list of atoms.
pub open spec fn create_coin_of(n: NodeV) -> Option<CreateCoinV> {
    match n {
        NodeV::Pair(op, t1) => if *op != op_atom(CREATE_COIN) {
            None
        } else {
            match *t1 {
                NodeV::Pair(ph, t2) => match (*ph, *t2) {
                    (NodeV::Atom(phb), NodeV::Pair(amt, t3)) => if phb.len() != 32 {
                        None
                    } else {
                        match *amt {
                            NodeV::Atom(ab) => match atom_u64(ab) {
                                Some(amount) => match *t3 {
                                    NodeV::Atom(nb) => if nb.len() == 0 {
                                        Some(
                                            CreateCoinV {
                                                puzzle_hash: phb,
                                                amount,
                                                memos: seq![],
                                            },
                                        )
                                    } else {
                                        None
                                    },
                                    NodeV::Pair(ml, t4) => if *t4 == NodeV::nil() {
                                        match atoms_list(*ml) {
                                            Some(memos) => Some(
                                                CreateCoinV { puzzle_hash: phb, amount, memos },
                                            ),
                                            None => None,
                                        }
                                    } else {
                                        None
                                    },
                                },
                                None => None,
                            },
                            NodeV::Pair(_, _) => None,
                        }
                    },
                    _ => None,
                },
                NodeV::Atom(_) => None,
            }
        },
        NodeV::Atom(_) => None,
    }
}

/// Reads a node as a metadata-update condition:
/// `(-24 updater_reveal updater_solution)`.
pub open spec fn new_metadata_of(n: NodeV) -> Option<NewMetadataV> {
    match n {
        NodeV::Pair(op, t1) => if *op != op_atom(NEW_METADATA_OPCODE) {
            None
        } else {
            match *t1 {
                NodeV::Pair(reveal, t2) => match *t2 {
                    NodeV::Pair(solution, t3) => if *t3 == NodeV::nil() {
                        Some(
                            NewMetadataV {
                                updater_reveal: *reveal,
                                updater_solution: *solution,
                            },
                        )
                    } else {
                        None
                    },
                    NodeV::Atom(_) => None,
                },
                NodeV::Atom(_) => None,
            }
        },
        NodeV::Atom(_) => None,
    }
}

/// Reads a node as a coin-announcement assertion: `(61 id)` with a
/// 32-byte id.
pub open spec fn announcement_assert_of(n: NodeV) -> Option<Seq<u8>> {
    match n {
        NodeV::Pair(op, t1) => if *op != op_atom(ASSERT_COIN_ANNOUNCEMENT) {
            None
        } else {
            match *t1 {
                NodeV::Pair(id, t2) => match *id {
                    NodeV::Atom(idb) => if idb.len() == 32 && *t2 == NodeV::nil() {
                        Some(idb)
                    } else {
                        None
                    },
                    NodeV::Pair(_, _) => None,
                },
                NodeV::Atom(_) => None,
            }
        },
        NodeV::Atom(_) => None,
    }
}

/// What one emitted node means: the known conditions in turn, any
/// other node carried through unread.
pub open spec fn classify(n: NodeV) -> ConditionV {
    match create_coin_of(n) {
        Some(cc) => ConditionV::CreateCoin(cc),
        None => match new_metadata_of(n) {
            Some(nm) => ConditionV::NewMetadata(nm),
            None => match announcement_assert_of(n) {
                Some(id) => ConditionV::AssertCoinAnnouncement(id),
                None => ConditionV::Other(n),
            },
        },
    }
}

/// What a whole puzzle output means: one condition per item of the
/// proper list, or nothing if the output is not a proper list.
pub open spec fn conditions_of(output: NodeV) -> Option<Seq<ConditionV>> {
    match output.as_list() {
        Some(items) => Some(items.map_values(|n: NodeV| classify(n))),
        None => None,
    }
}

/// The memo list as a tree: a proper list of atoms.
pub open spec fn memos_node(memos: Seq<Seq<u8>>) -> NodeV {
    NodeV::list(memos.map_values(|m: Seq<u8>| NodeV::Atom(m)))
}

/// The tree a condition is written as.
pub open spec fn cond_node(c: ConditionV) -> NodeV {
    match c {
        ConditionV::CreateCoin(cc) => if cc.memos.len() == 0 {
            NodeV::list(
                seq![
                    op_atom(CREATE_COIN),
                    NodeV::Atom(cc.puzzle_hash),
                    NodeV::int_atom(cc.amount),
                ],
            )
        } else {
            NodeV::list(
                seq![
                    op_atom(CREATE_COIN),
                    NodeV::Atom(cc.puzzle_hash),
                    NodeV::int_atom(cc.amount),
                    memos_node(cc.memos),
                ],
            )
        },
        ConditionV::NewMetadata(nm) => NodeV::list(
            seq![op_atom(NEW_METADATA_OPCODE), nm.updater_reveal, nm.updater_solution],
        ),
        ConditionV::AssertCoinAnnouncement(id) => NodeV::list(
            seq![op_atom(ASSERT_COIN_ANNOUNCEMENT), NodeV::Atom(id)],
        ),
        ConditionV::Other(n) => n,
    }
}

/// Builds the memo list tree.
pub fn memos_to_node(memos: &Vec<Vec<u8>>) -> (r: Node)
    ensures
        r@ == memos_node(memos@.map_values(|m: Vec<u8>| m@)),
{
    let mut items: Vec<Node> = Vec::new();
    let mut i: usize = 0;
    while i < memos.len()
        invariant
            i <= memos.len(),
            items@.len() == i,
            forall|j: int| 0 <= j < i ==> items@[j]@ == NodeV::Atom(memos@[j]@),
        decreases memos.len() - i,
    {
        items.push(Node::Atom(copy_bytes(&memos[i])));
        i += 1;
    }
    proof {
        assert(items@.map_values(|n: Node| n@) =~= memos@.map_values(|m: Vec<u8>| m@).map_values(
            |m: Seq<u8>| NodeV::Atom(m),
        ));
    }
    Node::list(items)
}

impl Condition {
    /// Writes this condition as the tree a puzzle would emit.
    pub fn to_node(&self) -> (r: Node)
        ensures
            r@ == cond_node(self@),
    {
        match self {
            Condition::CreateCoin(cc) => {
                let mut items: Vec<Node> = Vec::new();
                items.push(op_node(CREATE_COIN));
                items.push(Node::Atom(copy_bytes(&cc.puzzle_hash)));
                items.push(Node::from_u64(cc.amount));
                if cc.memos.len() > 0 {
                    items.push(memos_to_node(&cc.memos));
                    proof {
                        assert(items@.map_values(|n: Node| n@) =~= seq![
                            op_atom(CREATE_COIN),
                            NodeV::Atom(cc.puzzle_hash@),
                            NodeV::int_atom(cc.amount),
                            memos_node(cc@.memos),
                        ]);
                    }
                } else {
                    proof {
                        assert(items@.map_values(|n: Node| n@) =~= seq![
                            op_atom(CREATE_COIN),
                            NodeV::Atom(cc.puzzle_hash@),
                            NodeV::int_atom(cc.amount),
                        ]);
                    }
                }
                Node::list(items)
            },
            Condition::NewMetadata(nm) => {
                let mut items: Vec<Node> = Vec::new();
                items.push(op_node(NEW_METADATA_OPCODE));
                items.push(nm.updater_reveal.duplicate());
                items.push(nm.updater_solution.duplicate());
                proof {
                    assert(items@.map_values(|n: Node| n@) =~= seq![
                        op_atom(NEW_METADATA_OPCODE),
                        nm.updater_reveal@,
                        nm.updater_solution@,
                    ]);
                }
                Node::list(items)
            },
            Condition::AssertCoinAnnouncement(id) => {
                let mut items: Vec<Node> = Vec::new();
                items.push(op_node(ASSERT_COIN_ANNOUNCEMENT));
                items.push(Node::Atom(copy_bytes(id)));
                proof {
                    assert(items@.map_values(|n: Node| n@) =~= seq![
                        op_atom(ASSERT_COIN_ANNOUNCEMENT),
                        NodeV::Atom(id@),
                    ]);
                }
                Node::list(items)
            },
            Condition::Other(n) => n.duplicate(),
        }
    }
}

/// Writes a list of conditions as one output tree.
pub fn conditions_to_node(conds: &Vec<Condition>) -> (r: Node)
    ensures
        r@ == NodeV::list(
            conds@.map_values(|c: Condition| c@).map_values(|c: ConditionV| cond_node(c)),
        ),
{
    let mut items: Vec<Node> = Vec::new();
    let mut i: usize = 0;
    let ghost target = conds@.map_values(|c: Condition| c@).map_values(
        |c: ConditionV| cond_node(c),
    );
    while i < conds.len()
        invariant
            i <= conds.len(),
            target == conds@.map_values(|c: Condition| c@).map_values(
                |c: ConditionV| cond_node(c),
            ),
            items@.map_values(|n: Node| n@) =~= target.subrange(0, i as int),
        decreases conds.len() - i,
    {
        items.push(conds[i].to_node());
        proof {
            assert(target.subrange(0, i as int + 1) =~= target.subrange(0, i as int).push(
                target[i as int],
            ));
        }
        i += 1;
    }
    proof {
        assert(target.subrange(0, target.len() as int) =~= target);
    }
    Node::list(items)
}

pub(crate) fn atoms_list_exec(n: &Node) -> (r: Option<Vec<Vec<u8>>>)
    ensures
        match r {
            Some(v) => atoms_list(n@) == Some(v@.map_values(|m: Vec<u8>| m@)),
            None => atoms_list(n@) is None,
        },
    decreases n,
{
    proof {
        reveal_with_fuel(crate::node::node_view, 4);
    }
    match n {
        Node::Atom(b) => {
            if b.len() == 0 {
                let v: Vec<Vec<u8>> = Vec::new();
                proof {
                    assert(v@.map_values(|m: Vec<u8>| m@) =~= Seq::<Seq<u8>>::empty());
                }
                Some(v)
            } else {
                None
            }
        },
        Node::Pair(h, t) => match &**h {
            Node::Atom(hb) => match atoms_list_exec(t) {
                Some(rest) => {
                    let ghost restv = rest@.map_values(|m: Vec<u8>| m@);
                    let mut rest = rest;
                    rest.insert(0, copy_bytes(hb));
                    proof {
                        assert(rest@.map_values(|m: Vec<u8>| m@) =~= seq![hb@] + restv);
                    }
                    Some(rest)
                },
                None => None,
            },
            Node::Pair(_, _) => None,
        },
    }
}

fn try_create_coin(n: &Node) -> (r: Option<CreateCoin>)
    ensures
        match r {
            Some(cc) => create_coin_of(n@) == Some(cc@),
            None => create_coin_of(n@) is None,
        },
{
    proof {
        reveal_with_fuel(crate::node::node_view, 6);
    }
    match n {
        Node::Atom(_) => None,
        Node::Pair(op, t1) => {
            if !is_op(op, CREATE_COIN) {
                return None;
            }
            match &**t1 {
                Node::Atom(_) => None,
                Node::Pair(ph, t2) => match (&**ph, &**t2) {
                    (Node::Atom(phb), Node::Pair(amt, t3)) => {
                        if phb.len() != 32 {
                            return None;
                        }
                        match &**amt {
                            Node::Pair(_, _) => None,
                            Node::Atom(ab) => match bytes_to_u64(ab) {
                                None => None,
                                Some(amount) => match &**t3 {
                                    Node::Atom(nb) => {
                                        if nb.len() == 0 {
                                            let v: Vec<Vec<u8>> = Vec::new();
                                            proof {
                                                assert(v@.map_values(|m: Vec<u8>| m@)
                                                    =~= Seq::<Seq<u8>>::empty());
                                            }
                                            Some(
                                                CreateCoin {
                                                    puzzle_hash: copy_bytes(phb),
                                                    amount,
                                                    memos: v,
                                                },
                                            )
                                        } else {
                                            None
                                        }
                                    },
                                    Node::Pair(ml, t4) => {
                                        if !is_nil(t4) {
                                            return None;
                                        }
                                        match atoms_list_exec(ml) {
                                            Some(memos) => Some(
                                                CreateCoin {
                                                    puzzle_hash: copy_bytes(phb),
                                                    amount,
                                                    memos,
                                                },
                                            ),
                                            None => None,
                                        }
                                    },
                                },
                            },
                        }
                    },
                    _ => None,
                },
            }
        },
    }
}

fn try_new_metadata(n: &Node) -> (r: Option<NewMetadata>)
    ensures
        match r {
            Some(nm) => new_metadata_of(n@) == Some(nm@),
            None => new_metadata_of(n@) is None,
        },
{
    proof {
        reveal_with_fuel(crate::node::node_view, 6);
    }
    match n {
        Node::Atom(_) => None,
        Node::Pair(op, t1) => {
            if !is_op(op, NEW_METADATA_OPCODE) {
                return None;
            }
            match &**t1 {
                Node::Atom(_) => None,
                Node::Pair(reveal, t2) => match &**t2 {
                    Node::Atom(_) => None,
                    Node::Pair(solution, t3) => {
                        if is_nil(t3) {
                            Some(
                                NewMetadata {
                                    updater_reveal: reveal.duplicate(),
                                    updater_solution: solution.duplicate(),
                                },
                            )
                        } else {
                            None
                        }
                    },
                },
            }
        },
    }
}

fn try_announcement_assert(n: &Node) -> (r: Option<Vec<u8>>)
    ensures
        match r {
            Some(id) => announcement_assert_of(n@) == Some(id@),
            None => announcement_assert_of(n@) is None,
        },
{
    proof {
        reveal_with_fuel(crate::node::node_view, 6);
    }
    match n {
        Node::Atom(_) => None,
        Node::Pair(op, t1) => {
            if !is_op(op, ASSERT_COIN_ANNOUNCEMENT) {
                return None;
            }
            match &**t1 {
                Node::Atom(_) => None,
                Node::Pair(id, t2) => match &**id {
                    Node::Pair(_, _) => None,
                    Node::Atom(idb) => {
                        if idb.len() == 32 && is_nil(t2) {
                            Some(copy_bytes(idb))
                        } else {
                            None
                        }
                    },
                },
            }
        },
    }
}

/// Reads one emitted node as the condition it means.
pub fn classify_node(n: &Node) -> (r: Condition)
    ensures
        r@ == classify(n@),
{
    match try_create_coin(n) {
        Some(cc) => Condition::CreateCoin(cc),
        None => match try_new_metadata(n) {
            Some(nm) => Condition::NewMetadata(nm),
            None => match try_announcement_assert(n) {
                Some(id) => Condition::AssertCoinAnnouncement(id),
                None => Condition::Other(n.duplicate()),
            },
        },
    }
}

/// Reads a whole puzzle output as its list of conditions; `None` when
/// the output is not a proper list.
pub fn parse_conditions(output: &Node) -> (r: Option<Vec<Condition>>)
    ensures
        match r {
            Some(v) => conditions_of(output@) == Some(v@.map_values(|c: Condition| c@)),
            None => conditions_of(output@) is None,
        },
    decreases output,
{
    proof {
        reveal_with_fuel(crate::node::node_view, 4);
    }
    match output {
        Node::Atom(b) => {
            if b.len() == 0 {
                let v: Vec<Condition> = Vec::new();
                proof {
                    assert(v@.map_values(|c: Condition| c@) =~= Seq::<ConditionV>::empty());
                    assert(Seq::<NodeV>::empty().map_values(|n: NodeV| classify(n))
                        =~= Seq::<ConditionV>::empty());
                }
                Some(v)
            } else {
                None
            }
        },
        Node::Pair(h, t) => match parse_conditions(t) {
            Some(rest) => {
                let ghost restv = rest@.map_values(|c: Condition| c@);
                let mut rest = rest;
                let c = classify_node(h);
                rest.insert(0, c);
                proof {
                    assert(rest@.map_values(|c: Condition| c@) =~= seq![classify((*h)@)] + restv);
                    let items = (*t)@.as_list()->Some_0;
                    assert((seq![(*h)@] + items).map_values(|n: NodeV| classify(n)) =~= seq![
                        classify((*h)@),
                    ] + items.map_values(|n: NodeV| classify(n)));
                }
                Some(rest)
            },
            None => None,
        },
    }
}

} // verus!
