use stylecast::content::{ContentNode, NodeData};
use stylecast::heading::HeadingNode;
use stylecast::styles::{Strength, StyleChain, StyleKey, StyleMap};
use stylecast::value::{Em, Value};

fn block() -> ContentNode {
    ContentNode { data: NodeData::Block, body: None, guards: Vec::new() }
}

fn heading(level: i64) -> HeadingNode {
    HeadingNode { level, body: block() }
}

fn size(hundredths: u64) -> Value {
    Value::Size(Em::new(hundredths))
}

#[test]
fn defaults_table_is_exact_for_levels_one_two_five() {
    let expect = [
        (1, 140u64, 180u64),
        (2, 120, 144),
        (5, 100, 144),
    ];
    for (level, text_size, above) in expect {
        let sc = heading(level).finalize(block());
        assert_eq!(
            sc.styles.get(StyleKey::TextSize),
            Some((size(text_size), Strength::Weak)),
        );
        assert_eq!(sc.styles.get(StyleKey::AboveSpace), Some((size(above), Strength::Weak)));
        assert_eq!(sc.styles.get(StyleKey::BelowSpace), Some((size(66), Strength::Strong)));
        assert_eq!(
            sc.styles.get(StyleKey::TextWeight),
            Some((Value::Weight(700), Strength::Weak)),
        );
    }
}

#[test]
fn outer_weak_size_beats_finalize_weak_default() {
    let mut outer_map = StyleMap::new();
    outer_map.set(StyleKey::TextSize, size(200), Strength::Weak);
    let outer = StyleChain::empty().prepended(outer_map);
    let sc = heading(1).finalize(block());
    let chain = sc.chained(&outer);
    assert_eq!(chain.get(StyleKey::TextSize), Some(size(200)));
}

#[test]
fn outer_strong_size_beats_finalize_weak_default() {
    let mut outer_map = StyleMap::new();
    outer_map.set(StyleKey::TextSize, size(200), Strength::Strong);
    let outer = StyleChain::empty().prepended(outer_map);
    let sc = heading(1).finalize(block());
    let chain = sc.chained(&outer);
    assert_eq!(chain.get(StyleKey::TextSize), Some(size(200)));
}

#[test]
fn finalize_default_fills_unset_size() {
    let outer = StyleChain::empty();
    let sc = heading(1).finalize(block());
    let chain = sc.chained(&outer);
    assert_eq!(chain.get(StyleKey::TextSize), Some(size(140)));
}

#[test]
fn strong_below_space_overrides_outer_weak_entry() {
    let mut outer_map = StyleMap::new();
    outer_map.set(StyleKey::BelowSpace, size(999), Strength::Weak);
    let outer = StyleChain::empty().prepended(outer_map);
    let sc = heading(2).finalize(block());
    let chain = sc.chained(&outer);
    assert_eq!(chain.get(StyleKey::BelowSpace), Some(size(66)));
}

#[test]
fn set_overwrites_the_entry_for_a_key() {
    let mut map = StyleMap::new();
    map.set(StyleKey::TextSize, size(100), Strength::Weak);
    map.set(StyleKey::TextWeight, Value::Weight(400), Strength::Weak);
    map.set(StyleKey::TextSize, size(150), Strength::Strong);
    assert_eq!(map.get(StyleKey::TextSize), Some((size(150), Strength::Strong)));
    assert_eq!(map.get(StyleKey::TextWeight), Some((Value::Weight(400), Strength::Weak)));
    assert_eq!(map.get(StyleKey::AboveSpace), None);
}

#[test]
fn innermost_strong_entry_wins_among_strongs() {
    let mut outer_map = StyleMap::new();
    outer_map.set(StyleKey::TextSize, size(300), Strength::Strong);
    let mut inner_map = StyleMap::new();
    inner_map.set(StyleKey::TextSize, size(111), Strength::Strong);
    let chain = StyleChain::empty().prepended(outer_map).prepended(inner_map);
    assert_eq!(chain.get(StyleKey::TextSize), Some(size(111)));
}

#[test]
fn first_registered_weak_entry_wins_among_weaks() {
    let mut outer_map = StyleMap::new();
    outer_map.set(StyleKey::TextSize, size(300), Strength::Weak);
    let mut inner_map = StyleMap::new();
    inner_map.set(StyleKey::TextSize, size(111), Strength::Weak);
    let chain = StyleChain::empty().prepended(outer_map).prepended(inner_map);
    assert_eq!(chain.get(StyleKey::TextSize), Some(size(300)));
}

#[test]
fn strong_beats_weak_regardless_of_scope_order() {
    let mut outer_map = StyleMap::new();
    outer_map.set(StyleKey::AboveSpace, size(10), Strength::Strong);
    let mut inner_map = StyleMap::new();
    inner_map.set(StyleKey::AboveSpace, size(20), Strength::Weak);
    let chain = StyleChain::empty().prepended(outer_map).prepended(inner_map);
    assert_eq!(chain.get(StyleKey::AboveSpace), Some(size(10)));
}

#[test]
fn empty_chain_resolves_nothing() {
    let chain = StyleChain::empty();
    assert_eq!(chain.get(StyleKey::BelowSpace), None);
}
