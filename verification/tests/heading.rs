use stylecast::content::{ContentNode, NodeData};
use stylecast::heading::{Args, ConstructError, HeadingNode};
use stylecast::value::{Em, Value};

fn block() -> ContentNode {
    ContentNode { data: NodeData::Block, body: None, guards: Vec::new() }
}

fn body_args() -> Args {
    Args { positional: vec![Value::Content(Box::new(block()))], named: Vec::new() }
}

#[test]
fn construct_defaults_level_to_one() {
    let node = HeadingNode::construct(&body_args()).unwrap();
    let h = HeadingNode::unpack(&node).unwrap();
    assert_eq!(h.level, 1);
    assert_eq!(h.field("level"), Some(Value::Int(1)));
}

#[test]
fn construct_takes_supplied_level() {
    let args = Args {
        positional: vec![Value::Content(Box::new(block()))],
        named: vec![("level".to_string(), Value::Int(3))],
    };
    let node = HeadingNode::construct(&args).unwrap();
    let h = HeadingNode::unpack(&node).unwrap();
    assert_eq!(h.level, 3);
    assert_eq!(h.field("level"), Some(Value::Int(3)));
}

#[test]
fn field_returns_body_and_nothing_for_unknown() {
    let node = HeadingNode::construct(&body_args()).unwrap();
    let h = HeadingNode::unpack(&node).unwrap();
    assert_eq!(h.field("body"), Some(Value::Content(Box::new(block()))));
    assert_eq!(h.field("unknown"), None);
}

#[test]
fn construct_without_body_is_missing_argument() {
    let args = Args { positional: Vec::new(), named: Vec::new() };
    let err = HeadingNode::construct(&args).unwrap_err();
    assert!(matches!(err, ConstructError::MissingArgument(ref n) if n == "body"));
}

#[test]
fn construct_with_zero_level_is_invariant_violation() {
    let args = Args {
        positional: vec![Value::Content(Box::new(block()))],
        named: vec![("level".to_string(), Value::Int(0))],
    };
    let err = HeadingNode::construct(&args).unwrap_err();
    assert!(matches!(err, ConstructError::InvariantViolation(ref n) if n == "level"));
}

#[test]
fn construct_with_non_content_body_is_type_mismatch() {
    let args = Args { positional: vec![Value::Int(7)], named: Vec::new() };
    let err = HeadingNode::construct(&args).unwrap_err();
    match err {
        ConstructError::TypeMismatch { name, expected, got } => {
            assert_eq!(name, "body");
            assert_eq!(expected, "content");
            assert_eq!(got, "integer");
        },
        other => panic!("unexpected error: {:?}", other),
    }
}

#[test]
fn construct_with_non_integer_level_is_type_mismatch() {
    let args = Args {
        positional: vec![Value::Content(Box::new(block()))],
        named: vec![("level".to_string(), Value::Size(Em::new(100)))],
    };
    let err = HeadingNode::construct(&args).unwrap_err();
    match err {
        ConstructError::TypeMismatch { name, expected, got } => {
            assert_eq!(name, "level");
            assert_eq!(expected, "integer");
            assert_eq!(got, "size");
        },
        other => panic!("unexpected error: {:?}", other),
    }
}

#[test]
fn named_arguments_resolve_by_first_match() {
    let args = Args {
        positional: Vec::new(),
        named: vec![
            ("level".to_string(), Value::Int(2)),
            ("level".to_string(), Value::Int(9)),
        ],
    };
    assert_eq!(args.named("level"), Some(Value::Int(2)));
    assert_eq!(args.named("depth"), None);
}

#[test]
fn show_wraps_the_body_in_a_block() {
    let h = HeadingNode { level: 2, body: block() };
    let shown = h.show();
    assert!(matches!(shown.data, NodeData::Block));
    assert_eq!(*shown.body.unwrap(), block());
    assert!(shown.guards.is_empty());
}

#[test]
fn unguard_parts_keeps_fields_and_unguards_the_body() {
    let h = HeadingNode { level: 4, body: block().with_guard(6) };
    let repacked = h.unguard_parts(6);
    assert!(matches!(repacked.data, NodeData::Heading { level: 4 }));
    let body = repacked.body.unwrap();
    assert_eq!(*body, block());
}

#[test]
fn expect_yields_first_positional() {
    let args = body_args();
    let v = args.expect("body").unwrap();
    assert_eq!(v, Value::Content(Box::new(block())));
}
