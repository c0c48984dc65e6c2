use datastore_driver::codec::{deserialize_node, parse_node_at, serialize_node};
use datastore_driver::intbytes::{bytes_to_u64, int_to_bytes, int_to_bytes_i64};
use datastore_driver::node::Node;

use num_bigint::BigInt;

fn atom(bytes: &[u8]) -> Node {
    Node::Atom(bytes.to_vec())
}

fn pair(l: Node, r: Node) -> Node {
    Node::pair(l, r)
}

fn roundtrip(n: &Node) -> Vec<u8> {
    let bytes = serialize_node(n).expect("serializable");
    let back = deserialize_node(&bytes).expect("parses");
    assert!(back.equals(n));
    bytes
}

#[test]
fn wire_form_of_atoms() {
    assert_eq!(roundtrip(&atom(&[])), vec![0x80]);
    assert_eq!(roundtrip(&atom(&[0x00])), vec![0x00]);
    assert_eq!(roundtrip(&atom(&[0x7f])), vec![0x7f]);
    assert_eq!(roundtrip(&atom(&[0x80])), vec![0x81, 0x80]);
    assert_eq!(roundtrip(&atom(&[1, 2, 3])), vec![0x83, 1, 2, 3]);
    let long = vec![7u8; 0x40];
    let enc = roundtrip(&atom(&long));
    assert_eq!(enc[0], 0xc0);
    assert_eq!(enc[1], 0x40);
    assert_eq!(&enc[2..], &long[..]);
}

#[test]
fn wire_form_of_pairs() {
    let n = pair(atom(&[1]), pair(atom(&[2]), atom(&[])));
    let bytes = roundtrip(&n);
    assert_eq!(bytes, vec![0xff, 1, 0xff, 2, 0x80]);
}

#[test]
fn wire_form_matches_interpreter_library() {
    let n = pair(
        atom(&[0x33]),
        pair(atom(&[9u8; 32]), pair(atom(&[0x01, 0x00]), atom(&[]))),
    );
    let bytes = serialize_node(&n).unwrap();
    let mut a = clvmr::Allocator::new();
    let ptr = clvmr::serde::node_from_bytes(&mut a, &bytes).expect("clvmr parses our bytes");
    let back = clvmr::serde::node_to_bytes(&a, ptr).expect("clvmr serializes");
    assert_eq!(back, bytes);
    assert!(deserialize_node(&back).unwrap().equals(&n));
}

#[test]
fn non_canonical_forms_are_rejected() {
    // length-prefixed single byte under 0x80 must use the bare form
    assert!(deserialize_node(&vec![0x81, 0x05]).is_none());
    // over-long length prefix
    assert!(deserialize_node(&vec![0xc0, 0x01, 0x07]).is_none());
    // trailing bytes after one value
    assert!(deserialize_node(&vec![0x80, 0x80]).is_none());
    // truncated pair
    assert!(deserialize_node(&vec![0xff, 0x01]).is_none());
    assert!(parse_node_at(&vec![0xff, 0x01, 0x02], 0).is_some());
}

fn reference_signed_bytes(v: BigInt) -> Vec<u8> {
    let bytes = v.to_signed_bytes_be();
    let mut s = bytes.as_slice();
    while !s.is_empty() && s[0] == 0 {
        if s.len() > 1 && (s[1] & 0x80) == 0x80 {
            break;
        }
        s = &s[1..];
    }
    s.to_vec()
}

#[test]
fn fee_codec_edge_cases() {
    // zero encodes to the empty byte string
    assert_eq!(int_to_bytes(0), Vec::<u8>::new());
    // 128 keeps a leading zero so the sign bit stays clear, and reads back
    assert_eq!(int_to_bytes(128), vec![0x00, 0x80]);
    assert_eq!(bytes_to_u64(&vec![0x00, 0x80]), Some(128));
    assert_eq!(bytes_to_u64(&Vec::new()), Some(0));
    assert_eq!(int_to_bytes(127), vec![0x7f]);
    assert_eq!(bytes_to_u64(&vec![0x80]), None);
}

#[test]
fn unsigned_encoding_matches_bigint() {
    for v in [
        0u64,
        1,
        127,
        128,
        255,
        256,
        0x7fff,
        0x8000,
        0xabcdef,
        u64::MAX / 2,
        u64::MAX,
    ] {
        assert_eq!(int_to_bytes(v), reference_signed_bytes(BigInt::from(v)), "value {v}");
        assert_eq!(bytes_to_u64(&int_to_bytes(v)), Some(v), "value {v}");
    }
}

#[test]
fn signed_encoding_matches_bigint() {
    for v in [
        0i64,
        1,
        -1,
        127,
        -128,
        128,
        -129,
        0x7fff,
        -0x8000,
        i64::MIN,
        i64::MAX,
    ] {
        assert_eq!(int_to_bytes_i64(v), reference_signed_bytes(BigInt::from(v)), "value {v}");
    }
}
