use std::collections::hash_map::DefaultHasher;
use std::hash::{Hash, Hasher};

use stylecast::content::{ContentNode, NodeData};
use stylecast::heading::HeadingNode;

fn block() -> ContentNode {
    ContentNode { data: NodeData::Block, body: None, guards: Vec::new() }
}

fn heading_node(level: i64) -> ContentNode {
    HeadingNode { level, body: block() }.pack()
}

fn hash_of(node: &ContentNode) -> u64 {
    let mut hasher = DefaultHasher::new();
    node.hash(&mut hasher);
    hasher.finish()
}

#[test]
fn independently_built_equal_nodes_compare_and_hash_alike() {
    let a = heading_node(2);
    let b = heading_node(2);
    assert_eq!(a, b);
    assert!(a.structural_eq(&b));
    assert_eq!(hash_of(&a), hash_of(&b));
}

#[test]
fn changing_a_field_changes_equality_and_hash() {
    let a = heading_node(1);
    let b = heading_node(2);
    assert_ne!(a, b);
    assert_ne!(hash_of(&a), hash_of(&b));
}

#[test]
fn changing_the_nested_body_changes_equality_and_hash() {
    let a = heading_node(1);
    let deeper = HeadingNode { level: 1, body: heading_node(1) }.pack();
    assert_ne!(a, deeper);
    assert_ne!(hash_of(&a), hash_of(&deeper));
}

#[test]
fn guard_set_takes_part_in_structural_identity() {
    let plain = heading_node(1);
    let guarded = plain.with_guard(5);
    assert_ne!(plain, guarded);
    assert_eq!(guarded, plain.with_guard(5));
    assert_ne!(hash_of(&plain), hash_of(&guarded));
}

#[test]
fn guard_order_and_multiplicity_carry_no_meaning() {
    let mut a = block();
    a.guards = vec![1, 2];
    let mut b = block();
    b.guards = vec![2, 1, 2];
    assert_eq!(a, b);
}

#[test]
fn with_guard_unguards_the_body() {
    let inner = block().with_guard(3);
    let node = ContentNode {
        data: NodeData::Heading { level: 1 },
        body: Some(Box::new(inner)),
        guards: Vec::new(),
    };
    let guarded = node.with_guard(3);
    assert!(stylecast::content::guards_contain(&guarded.guards, 3));
    let body = guarded.body.as_ref().unwrap();
    assert!(!stylecast::content::guards_contain(&body.guards, 3));
}

#[test]
fn unguard_removes_the_guard_everywhere() {
    let node = ContentNode {
        data: NodeData::Block,
        body: Some(Box::new(block().with_guard(8))),
        guards: vec![8, 9],
    };
    let cleaned = node.unguard(8);
    assert!(!stylecast::content::guards_contain(&cleaned.guards, 8));
    assert!(stylecast::content::guards_contain(&cleaned.guards, 9));
    assert!(!stylecast::content::guards_contain(
        &cleaned.body.as_ref().unwrap().guards,
        8,
    ));
}

#[test]
fn duplicate_is_structurally_identical() {
    let node = heading_node(3).with_guard(2);
    let copy = node.duplicate();
    assert_eq!(node, copy);
    assert_eq!(hash_of(&node), hash_of(&copy));
}
