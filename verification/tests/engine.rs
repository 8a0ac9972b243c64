use stylecast::content::{guards_contain, ContentNode, ElemKind, NodeData};
use stylecast::heading::HeadingNode;
use stylecast::realize::resolve;
use stylecast::recipe::{Recipe, Registry, Transform};
use stylecast::show::resolve_show;
use stylecast::styles::{Strength, StyleChain, StyleKey};
use stylecast::value::{Em, Value};

fn block() -> ContentNode {
    ContentNode { data: NodeData::Block, body: None, guards: Vec::new() }
}

fn heading_node(level: i64) -> ContentNode {
    HeadingNode { level, body: block() }.pack()
}

fn block_around(inner: ContentNode) -> ContentNode {
    ContentNode { data: NodeData::Block, body: Some(Box::new(inner)), guards: Vec::new() }
}

fn registry_of(recipes: Vec<Recipe>) -> Registry {
    let reg = Registry { recipes };
    assert!(reg.check_wf());
    reg
}

#[test]
fn reconstructing_recipe_terminates_after_one_pass() {
    // The recipe's output is structurally equal to its pre-guard input,
    // yet resolution settles instead of recursing forever.
    let reg = registry_of(vec![Recipe {
        id: 1,
        kind: ElemKind::Heading,
        scope: None,
        transform: Transform::Rebuild,
    }]);
    let (settled, realized) =
        resolve_show(heading_node(1), &reg, &StyleChain::empty()).unwrap();
    assert_eq!(settled, heading_node(1));
    assert_eq!(realized, block_around(block()));
}

#[test]
fn identity_recipe_keeps_its_guard_on_the_settled_node() {
    let reg = registry_of(vec![Recipe {
        id: 7,
        kind: ElemKind::Heading,
        scope: None,
        transform: Transform::Identity,
    }]);
    let (settled, realized) =
        resolve_show(heading_node(1), &reg, &StyleChain::empty()).unwrap();
    assert!(guards_contain(&settled.guards, 7));
    assert_eq!(realized, block_around(block()));
}

#[test]
fn no_recipe_realizes_heading_as_block_around_body() {
    let reg = registry_of(Vec::new());
    let (settled, realized) =
        resolve_show(heading_node(2), &reg, &StyleChain::empty()).unwrap();
    assert_eq!(settled, heading_node(2));
    assert_eq!(realized, block_around(block()));
}

#[test]
fn replace_recipe_rewrites_the_node() {
    let marker = block_around(block());
    let reg = registry_of(vec![Recipe {
        id: 1,
        kind: ElemKind::Heading,
        scope: None,
        transform: Transform::Replace(Box::new(marker.duplicate())),
    }]);
    let (_, realized) = resolve_show(heading_node(1), &reg, &StyleChain::empty()).unwrap();
    assert_eq!(realized, marker);
}

#[test]
fn most_recently_registered_recipe_wins() {
    let first = block();
    let second = block_around(block());
    let reg = registry_of(vec![
        Recipe {
            id: 1,
            kind: ElemKind::Heading,
            scope: None,
            transform: Transform::Replace(Box::new(first)),
        },
        Recipe {
            id: 2,
            kind: ElemKind::Heading,
            scope: None,
            transform: Transform::Replace(Box::new(second.duplicate())),
        },
    ]);
    let (_, realized) = resolve_show(heading_node(1), &reg, &StyleChain::empty()).unwrap();
    assert_eq!(realized, second);
}

#[test]
fn wrapping_recipe_guards_the_wrapped_node() {
    let reg = registry_of(vec![Recipe {
        id: 4,
        kind: ElemKind::Heading,
        scope: None,
        transform: Transform::WrapBlock,
    }]);
    let (settled, _) = resolve_show(heading_node(1), &reg, &StyleChain::empty()).unwrap();
    assert!(matches!(settled.data, NodeData::Block));
    let inner = settled.body.as_ref().unwrap();
    assert!(matches!(inner.data, NodeData::Heading { level: 1 }));
    assert!(guards_contain(&inner.guards, 4));
}

#[test]
fn failing_transform_propagates_its_error() {
    let reg = registry_of(vec![Recipe {
        id: 9,
        kind: ElemKind::Heading,
        scope: None,
        transform: Transform::Fail("missing font".to_string()),
    }]);
    let err = resolve(heading_node(1), &reg, &StyleChain::empty()).unwrap_err();
    assert_eq!(err.recipe, 9);
    assert_eq!(err.cause, "missing font");
}

#[test]
fn scoped_recipe_applies_only_under_its_style_condition() {
    let make_reg = || {
        registry_of(vec![Recipe {
            id: 1,
            kind: ElemKind::Heading,
            scope: Some((StyleKey::TextWeight, Value::Weight(700))),
            transform: Transform::WrapBlock,
        }])
    };
    let plain = StyleChain::empty();
    let (_, unscoped) = resolve_show(heading_node(1), &make_reg(), &plain).unwrap();
    assert_eq!(unscoped, block_around(block()));

    let mut map = stylecast::styles::StyleMap::new();
    map.set(StyleKey::TextWeight, Value::Weight(700), Strength::Weak);
    let bold = plain.prepended(map);
    let (settled, _) = resolve_show(heading_node(1), &make_reg(), &bold).unwrap();
    assert!(matches!(settled.data, NodeData::Block));
    assert!(settled.body.is_some());
}

#[test]
fn duplicate_recipe_identifiers_fail_the_wellformedness_check() {
    let reg = Registry {
        recipes: vec![
            Recipe { id: 3, kind: ElemKind::Heading, scope: None, transform: Transform::Identity },
            Recipe { id: 3, kind: ElemKind::Block, scope: None, transform: Transform::Identity },
        ],
    };
    assert!(!reg.check_wf());
}

#[test]
fn two_independent_resolutions_finalize_identically() {
    let reg = registry_of(vec![Recipe {
        id: 1,
        kind: ElemKind::Heading,
        scope: None,
        transform: Transform::Rebuild,
    }]);
    let chain = StyleChain::empty();
    let first = resolve(heading_node(2), &reg, &chain).unwrap();
    let second = resolve(heading_node(2), &reg, &chain).unwrap();
    assert_eq!(first.content, second.content);
    for key in [
        StyleKey::TextSize,
        StyleKey::TextWeight,
        StyleKey::AboveSpace,
        StyleKey::BelowSpace,
    ] {
        assert_eq!(first.styles.get(key), second.styles.get(key));
        // Finalize ran exactly once, on the settled heading itself: each
        // resolution carries exactly the heading's level-2 defaults.
        assert!(first.styles.get(key).is_some());
    }
    assert_eq!(
        first.styles.get(StyleKey::TextSize),
        Some((Value::Size(Em::new(120)), Strength::Weak)),
    );
}

#[test]
fn finalize_overlay_of_a_plain_block_is_empty() {
    let reg = registry_of(Vec::new());
    let sc = resolve(block(), &reg, &StyleChain::empty()).unwrap();
    assert_eq!(sc.content, block());
    assert_eq!(sc.styles.get(StyleKey::TextSize), None);
    assert_eq!(sc.styles.get(StyleKey::BelowSpace), None);
}
