//! Currying: fixing a program's first arguments.
//!
//! A program `m` curried with arguments `a1 .. ak` is the program
//! `(a (q . m) (c (q . a1) (c (q . a2) ... 1)))`: run the quoted
//! program on an environment made of the quoted arguments followed by
//! whatever the caller passes.  Each layer of the protocol is one mod
//! program curried with that layer's parameters, so matching a layer
//! means uncurrying and recognising the mod.  The address of a curried
//! program is computable from the mod's and the arguments' addresses
//! alone, without rebuilding the tree.

use vstd::prelude::*;

use crate::hashing::hash_atom;
use crate::hashing::hash_atom_bytes;
use crate::hashing::hash_pair;
use crate::hashing::hash_pair_bytes;
use crate::hashing::tree_hash_of;
use crate::node::Node;
use crate::node::NodeV;

verus! {

/// The one-byte atom for an operator.
pub open spec fn op_atom(op: u8) -> NodeV {
    NodeV::Atom(seq![op])
}

/// `(q . body)`.
pub open spec fn quoted(body: NodeV) -> NodeV {
    NodeV::cons(op_atom(1), body)
}

/// The environment of a curried program: `(c (q . a1) (c ... 1))`.
pub open spec fn curry_env(args: Seq<NodeV>) -> NodeV
    decreases args.len(),
{
    if args.len() == 0 {
        op_atom(1)
    } else {
        NodeV::cons(
            op_atom(4),
            NodeV::cons(
                quoted(args.first()),
                NodeV::cons(curry_env(args.drop_first()), NodeV::nil()),
            ),
        )
    }
}

/// The program `mod_program` with `args` fixed in front.
pub open spec fn curried(mod_program: NodeV, args: Seq<NodeV>) -> NodeV {
    NodeV::cons(
        op_atom(2),
        NodeV::cons(quoted(mod_program), NodeV::cons(curry_env(args), NodeV::nil())),
    )
}

/// Reads a curried environment back into its argument list.
pub open spec fn uncurry_env(e: NodeV) -> Option<Seq<NodeV>>
    decreases e,
{
    match e {
        NodeV::Atom(b) => if b == seq![1u8] {
            Some(Seq::empty())
        } else {
            None
        },
        NodeV::Pair(op, tail1) => match *tail1 {
            NodeV::Pair(qarg, tail2) => match *tail2 {
                NodeV::Pair(env_rest, terminator) => match *qarg {
                    NodeV::Pair(q, arg) => {
                        if *op == op_atom(4) && *q == op_atom(1) && *terminator == NodeV::nil() {
                            match uncurry_env(*env_rest) {
                                Some(rest) => Some(seq![*arg] + rest),
                                None => None,
                            }
                        } else {
                            None
                        }
                    },
                    _ => None,
                },
                _ => None,
            },
            _ => None,
        },
    }
}

/// Reads a curried program back into its mod program and arguments.
pub open spec fn uncurried(p: NodeV) -> Option<(NodeV, Seq<NodeV>)> {
    match p {
        NodeV::Pair(op, tail1) => match *tail1 {
            NodeV::Pair(qprog, tail2) => match *tail2 {
                NodeV::Pair(env, terminator) => match *qprog {
                    NodeV::Pair(q, mod_program) => {
                        if *op == op_atom(2) && *q == op_atom(1) && *terminator == NodeV::nil() {
                            match uncurry_env(*env) {
                                Some(args) => Some((*mod_program, args)),
                                None => None,
                            }
                        } else {
                            None
                        }
                    },
                    _ => None,
                },
                _ => None,
            },
            _ => None,
        },
        NodeV::Atom(_) => None,
    }
}

/// Uncurrying inverts currying.
pub proof fn lemma_uncurry_curry(mod_program: NodeV, args: Seq<NodeV>)
    ensures
        uncurried(curried(mod_program, args)) == Some((mod_program, args)),
    decreases args.len(),
{
    lemma_uncurry_env(args);
}

proof fn lemma_uncurry_env(args: Seq<NodeV>)
    ensures
        uncurry_env(curry_env(args)) == Some(args),
    decreases args.len(),
{
    if args.len() == 0 {
        assert(uncurry_env(curry_env(args)) == Some(Seq::<NodeV>::empty()));
        assert(args =~= Seq::<NodeV>::empty());
    } else {
        lemma_uncurry_env(args.drop_first());
        assert(seq![args.first()] + args.drop_first() =~= args);
    }
}

/// The address of a curried environment, from the arguments' addresses.
pub open spec fn curry_env_hash(arg_hashes: Seq<Seq<u8>>) -> Seq<u8>
    decreases arg_hashes.len(),
{
    if arg_hashes.len() == 0 {
        hash_atom(seq![1u8])
    } else {
        hash_pair(
            hash_atom(seq![4u8]),
            hash_pair(
                hash_pair(hash_atom(seq![1u8]), arg_hashes.first()),
                hash_pair(curry_env_hash(arg_hashes.drop_first()), hash_atom(seq![])),
            ),
        )
    }
}

/// The address of a curried program, from the mod's and the arguments'
/// addresses.
pub open spec fn curry_hash(mod_hash: Seq<u8>, arg_hashes: Seq<Seq<u8>>) -> Seq<u8> {
    hash_pair(
        hash_atom(seq![2u8]),
        hash_pair(
            hash_pair(hash_atom(seq![1u8]), mod_hash),
            hash_pair(curry_env_hash(arg_hashes), hash_atom(seq![])),
        ),
    )
}

/// Hashing after currying equals combining the hashes: the tree hash
/// of a curried program is `curry_hash` of the parts' tree hashes.
pub proof fn lemma_curry_hash(mod_program: NodeV, args: Seq<NodeV>)
    ensures
        tree_hash_of(curried(mod_program, args)) == curry_hash(
            tree_hash_of(mod_program),
            args.map_values(|a: NodeV| tree_hash_of(a)),
        ),
{
    lemma_curry_env_hash(args);
    reveal_with_fuel(tree_hash_of, 6);
}

proof fn lemma_curry_env_hash(args: Seq<NodeV>)
    ensures
        tree_hash_of(curry_env(args)) == curry_env_hash(
            args.map_values(|a: NodeV| tree_hash_of(a)),
        ),
    decreases args.len(),
{
    reveal_with_fuel(tree_hash_of, 6);
    let hashes = args.map_values(|a: NodeV| tree_hash_of(a));
    if args.len() == 0 {
    } else {
        lemma_curry_env_hash(args.drop_first());
        assert(args.drop_first().map_values(|a: NodeV| tree_hash_of(a)) =~= hashes.drop_first());
        assert(hashes.first() == tree_hash_of(args.first()));
    }
}

/// Computes the address of a curried program from the mod's and the
/// arguments' addresses.
pub fn curry_hash_exec(mod_hash: &Vec<u8>, arg_hashes: &Vec<Vec<u8>>) -> (r: Vec<u8>)
    ensures
        r@ == curry_hash(mod_hash@, arg_hashes@.map_values(|h: Vec<u8>| h@)),
        r@.len() == 32,
{
    let ghost hashes = arg_hashes@.map_values(|h: Vec<u8>| h@);
    let one = single_byte(1);
    let two = single_byte(2);
    let four = single_byte(4);
    let empty: Vec<u8> = Vec::new();
    assert(empty@ =~= Seq::<u8>::empty());
    let nil_hash = hash_atom_bytes(&empty);
    let one_hash = hash_atom_bytes(&one);
    let mut env = hash_atom_bytes(&one);
    let mut i: usize = arg_hashes.len();
    proof {
        assert(hashes.skip(hashes.len() as int) =~= Seq::<Seq<u8>>::empty());
    }
    while i > 0
        invariant
            i <= hashes.len(),
            hashes == arg_hashes@.map_values(|h: Vec<u8>| h@),
            hashes.len() == arg_hashes@.len(),
            one@ == seq![1u8],
            four@ == seq![4u8],
            nil_hash@ == hash_atom(seq![]),
            one_hash@ == hash_atom(seq![1u8]),
            env@ == curry_env_hash(hashes.skip(i as int)),
        decreases i,
    {
        i -= 1;
        proof {
            assert(hashes.skip(i as int).first() == hashes[i as int]);
            assert(hashes.skip(i as int).drop_first() =~= hashes.skip(i as int + 1));
            assert(hashes[i as int] == arg_hashes@[i as int]@);
        }
        let quoted_arg = hash_pair_bytes(&one_hash, &arg_hashes[i]);
        let tail = hash_pair_bytes(&env, &nil_hash);
        let body = hash_pair_bytes(&quoted_arg, &tail);
        let four_hash = hash_atom_bytes(&four);
        env = hash_pair_bytes(&four_hash, &body);
    }
    proof {
        assert(hashes.skip(0) =~= hashes);
    }
    let two_hash = hash_atom_bytes(&two);
    let quoted_mod = hash_pair_bytes(&hash_atom_bytes(&one), mod_hash);
    let tail = hash_pair_bytes(&env, &nil_hash);
    let body = hash_pair_bytes(&quoted_mod, &tail);
    hash_pair_bytes(&two_hash, &body)
}

fn single_byte(b: u8) -> (r: Vec<u8>)
    ensures
        r@ == seq![b],
{
    let mut v: Vec<u8> = Vec::new();
    v.push(b);
    assert(v@ =~= seq![b]);
    v
}

impl Node {
    /// Curries `args` in front of this program.
    pub fn curry(self, args: Vec<Node>) -> (r: Node)
        ensures
            r@ == curried(self@, args@.map_values(|a: Node| a@)),
    {
        let ghost argv = args@.map_values(|a: Node| a@);
        let mut env = op_node(1);
        proof {
            assert(argv.skip(argv.len() as int) =~= Seq::<NodeV>::empty());
        }
        let mut rest = args;
        let mut i: usize = rest.len();
        while i > 0
            invariant
                i == rest@.len() <= argv.len(),
                rest@.map_values(|a: Node| a@) =~= argv.subrange(0, i as int),
                env@ == curry_env(argv.skip(i as int)),
            decreases i,
        {
            i -= 1;
            let ghost prev = rest@;
            let a = rest.pop().unwrap();
            proof {
                assert(prev.map_values(|m: Node| m@)[i as int] == a@);
                assert(rest@.map_values(|m: Node| m@) =~= prev.map_values(
                    |m: Node| m@,
                ).drop_last());
                assert(rest@.map_values(|m: Node| m@) =~= argv.subrange(0, i as int));
                assert(argv.skip(i as int).first() == argv[i as int]);
                assert(argv.skip(i as int).drop_first() =~= argv.skip(i as int + 1));
            }
            env = Node::pair(
                op_node(4),
                Node::pair(Node::pair(op_node(1), a), Node::pair(env, Node::nil())),
            );
        }
        proof {
            assert(argv.skip(0) =~= argv);
        }
        Node::pair(
            op_node(2),
            Node::pair(Node::pair(op_node(1), self), Node::pair(env, Node::nil())),
        )
    }

    /// Reads this program back into its mod program and arguments, if
    /// it is curried.
    pub fn uncurry(&self) -> (r: Option<(Node, Vec<Node>)>)
        ensures
            match r {
                Some(p) => uncurried(self@) == Some(
                    (p.0@, p.1@.map_values(|a: Node| a@)),
                ),
                None => uncurried(self@) is None,
            },
    {
        proof {
            reveal_with_fuel(crate::node::node_view, 6);
        }
        match self {
            Node::Atom(_) => None,
            Node::Pair(op, tail1) => match &**tail1 {
                Node::Pair(qprog, tail2) => match &**tail2 {
                    Node::Pair(env, terminator) => match &**qprog {
                        Node::Pair(q, mod_program) => {
                            if is_op(op, 2) && is_op(q, 1) && is_nil(terminator) {
                                match uncurry_env_exec(env) {
                                    Some(args) => Some((mod_program.duplicate(), args)),
                                    None => None,
                                }
                            } else {
                                None
                            }
                        },
                        Node::Atom(_) => None,
                    },
                    Node::Atom(_) => None,
                },
                Node::Atom(_) => None,
            },
        }
    }
}

pub(crate) fn is_op(n: &Node, op: u8) -> (r: bool)
    ensures
        r == (n@ == op_atom(op)),
{
    match n {
        Node::Atom(b) => {
            let r = b.len() == 1 && b[0] == op;
            proof {
                if r {
                    assert(b@ =~= seq![op]);
                }
            }
            r
        },
        Node::Pair(_, _) => false,
    }
}

pub(crate) fn is_nil(n: &Node) -> (r: bool)
    ensures
        r == (n@ == NodeV::nil()),
{
    match n {
        Node::Atom(b) => {
            let r = b.len() == 0;
            proof {
                if r {
                    assert(b@ =~= Seq::<u8>::empty());
                }
            }
            r
        },
        Node::Pair(_, _) => false,
    }
}

fn uncurry_env_exec(e: &Node) -> (r: Option<Vec<Node>>)
    ensures
        match r {
            Some(args) => uncurry_env(e@) == Some(args@.map_values(|a: Node| a@)),
            None => uncurry_env(e@) is None,
        },
    decreases e,
{
    proof {
        reveal_with_fuel(crate::node::node_view, 6);
    }
    match e {
        Node::Atom(b) => {
            if b.len() == 1 && b[0] == 1 {
                let v: Vec<Node> = Vec::new();
                proof {
                    assert(b@ =~= seq![1u8]);
                    assert(v@.map_values(|a: Node| a@) =~= Seq::<NodeV>::empty());
                }
                Some(v)
            } else {
                proof {
                    if b@ == seq![1u8] {
                        assert(b@.len() == 1 && b@[0] == 1);
                    }
                }
                None
            }
        },
        Node::Pair(op, tail1) => match &**tail1 {
            Node::Pair(qarg, tail2) => match &**tail2 {
                Node::Pair(env_rest, terminator) => match &**qarg {
                    Node::Pair(q, arg) => {
                        if is_op(op, 4) && is_op(q, 1) && is_nil(terminator) {
                            match uncurry_env_exec(env_rest) {
                                Some(rest) => {
                                    let mut args: Vec<Node> = Vec::new();
                                    args.push(arg.duplicate());
                                    let ghost one = args@.map_values(|a: Node| a@);
                                    let ghost restv = rest@.map_values(|a: Node| a@);
                                    append_nodes(&mut args, rest);
                                    proof {
                                        assert(args@.map_values(|a: Node| a@) =~= one + restv);
                                        assert(one =~= seq![arg@]);
                                    }
                                    Some(args)
                                },
                                None => None,
                            }
                        } else {
                            None
                        }
                    },
                    Node::Atom(_) => None,
                },
                Node::Atom(_) => None,
            },
            Node::Atom(_) => None,
        },
    }
}

/// Moves every node of `src` onto the end of `dst`, in order.
fn append_nodes(dst: &mut Vec<Node>, src: Vec<Node>)
    ensures
        final(dst)@.map_values(|a: Node| a@) == old(dst)@.map_values(|a: Node| a@)
            + src@.map_values(|a: Node| a@),
{
    let ghost dstv0 = dst@.map_values(|a: Node| a@);
    let ghost srcv = src@.map_values(|a: Node| a@);
    let mut src = src;
    while src.len() > 0
        invariant
            src@.len() <= srcv.len(),
            dst@.map_values(|a: Node| a@) =~= dstv0 + srcv.subrange(
                0,
                (srcv.len() - src@.len()) as int,
            ),
            src@.map_values(|a: Node| a@) =~= srcv.skip((srcv.len() - src@.len()) as int),
        decreases src.len(),
    {
        let ghost sprev = src@;
        let ghost k = (srcv.len() - sprev.len()) as int;
        let n = src.remove(0);
        proof {
            assert(sprev.map_values(|a: Node| a@)[0] == n@);
            assert(n@ == srcv[k]);
            assert(src@.map_values(|a: Node| a@) =~= sprev.map_values(
                |a: Node| a@,
            ).drop_first());
            assert(src@.map_values(|a: Node| a@) =~= srcv.skip(k + 1));
        }
        dst.push(n);
        proof {
            assert(dst@.map_values(|a: Node| a@) =~= (dstv0 + srcv.subrange(0, k)).push(srcv[k]));
            assert(dst@.map_values(|a: Node| a@) =~= dstv0 + srcv.subrange(0, k + 1));
        }
    }
    proof {
        assert(srcv.subrange(0, srcv.len() as int) =~= srcv);
    }
}

/// The one-byte atom for an operator, as a tree.
pub(crate) fn op_node(op: u8) -> (r: Node)
    ensures
        r@ == op_atom(op),
{
    let mut v: Vec<u8> = Vec::new();
    v.push(op);
    assert(v@ =~= seq![op]);
    Node::Atom(v)
}

} // verus!
