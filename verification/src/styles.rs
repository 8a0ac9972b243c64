//! Layered styling: maps of keyed entries with a strength, chained into
//! scopes, and the cascade rule that resolves a key against a chain.
//!
//! The cascade convention, applied consistently throughout: a `strong`
//! entry always beats a `weak` one wherever the two sit in the chain;
//! among `strong` entries the innermost scope wins; among `weak` entries
//! the first-registered one wins, and since chains grow by prepending an
//! innermost scope, the first-registered weak entry is the outermost one.
//! A default injected late (weakly) therefore never overrides a key that
//! any earlier scope has already settled.

use vstd::prelude::*;

use crate::value::{Value, ValueModel};

verus! {

/// Precedence tag of a style entry.
#[derive(Debug, Clone, Copy, PartialEq, Eq, Hash, Structural)]
pub enum Strength {
    Weak,
    Strong,
}

/// The closed set of style keys this core writes and reads.
#[derive(Debug, Clone, Copy, PartialEq, Eq, Hash, Structural)]
pub enum StyleKey {
    /// Text size, in em.
    TextSize,
    /// Font weight.
    TextWeight,
    /// Vertical space above a block, in em.
    AboveSpace,
    /// Vertical space below a block, in em.
    BelowSpace,
}

/// One keyed entry of a style map.
#[derive(Debug)]
pub struct StyleEntry {
    pub key: StyleKey,
    pub value: Value,
    pub strength: Strength,
}

/// The mathematical model of an entry.
#[verifier::ext_equal]
pub struct EntryModel {
    pub key: StyleKey,
    pub value: ValueModel,
    pub strength: Strength,
}

impl View for StyleEntry {
    type V = EntryModel;

    open spec fn view(&self) -> EntryModel {
        EntryModel { key: self.key, value: self.value@, strength: self.strength }
    }
}

/// The first entry for `key`, scanning front to back.  `set` keeps at most
/// one entry per key, so this is the entry for `key` if there is one.
pub open spec fn map_lookup(m: Seq<EntryModel>, key: StyleKey) -> Option<EntryModel>
    decreases m.len(),
{
    if m.len() == 0 {
        Option::None
    } else if m[0].key == key {
        Option::Some(m[0])
    } else {
        map_lookup(m.drop_first(), key)
    }
}

proof fn lemma_lookup_skip(m: Seq<EntryModel>, key: StyleKey, i: int)
    requires
        0 <= i <= m.len(),
        forall|j: int| 0 <= j < i ==> m[j].key != key,
    ensures
        map_lookup(m, key) == map_lookup(m.skip(i), key),
    decreases i,
{
    if i > 0 {
        assert(m.drop_first() =~= m.skip(1));
        lemma_lookup_skip(m.skip(1), key, i - 1);
        assert(m.skip(1).skip(i - 1) =~= m.skip(i));
    } else {
        assert(m.skip(0) =~= m);
    }
}

proof fn lemma_lookup_agrees(a: Seq<EntryModel>, b: Seq<EntryModel>, key: StyleKey)
    requires
        a.len() == b.len(),
        forall|j: int|
            0 <= j < a.len() ==> ((a[j].key == key <==> b[j].key == key) && (a[j].key == key
                ==> a[j] == b[j])),
    ensures
        map_lookup(a, key) == map_lookup(b, key),
    decreases a.len(),
{
    if a.len() > 0 && a[0].key != key {
        assert(forall|j: int|
            0 <= j < a.drop_first().len() ==> a.drop_first()[j] == a[j + 1] && b.drop_first()[j]
                == b[j + 1]);
        lemma_lookup_agrees(a.drop_first(), b.drop_first(), key);
    }
}

proof fn lemma_lookup_push(m: Seq<EntryModel>, e: EntryModel, key: StyleKey)
    ensures
        map_lookup(m.push(e), key) == (match map_lookup(m, key) {
            Option::Some(x) => Option::Some(x),
            Option::None => if e.key == key {
                Option::Some(e)
            } else {
                Option::None
            },
        }),
    decreases m.len(),
{
    if m.len() == 0 {
        if e.key != key {
            assert(m.push(e).drop_first() =~= Seq::<EntryModel>::empty());
        }
    } else {
        assert(m.push(e)[0] == m[0]);
        assert(m.push(e).drop_first() =~= m.drop_first().push(e));
        lemma_lookup_push(m.drop_first(), e, key);
    }
}

/// A keyed collection of style entries, one entry per key.
#[derive(Debug)]
pub struct StyleMap {
    pub entries: Vec<StyleEntry>,
}

impl View for StyleMap {
    type V = Seq<EntryModel>;

    open spec fn view(&self) -> Seq<EntryModel> {
        self.entries@.map_values(|e: StyleEntry| e@)
    }
}

impl StyleMap {
    /// An empty map.
    pub fn new() -> (r: StyleMap)
        ensures
            r@ == Seq::<EntryModel>::empty(),
    {
        let r = StyleMap { entries: Vec::new() };
        proof {
            assert(r@ =~= Seq::<EntryModel>::empty());
        }
        r
    }

    /// The index of the entry for `key`, if the map holds one.
    fn find_index(&self, key: StyleKey) -> (r: Option<usize>)
        ensures
            (match r {
                Option::Some(i) => i < self@.len() && self@[i as int].key == key && forall|j: int|
                    0 <= j < i ==> self@[j].key != key,
                Option::None => forall|j: int| 0 <= j < self@.len() ==> self@[j].key != key,
            }),
    {
        let mut i: usize = 0;
        while i < self.entries.len()
            invariant
                0 <= i <= self.entries.len(),
                self@.len() == self.entries.len(),
                forall|j: int| 0 <= j < i ==> self@[j].key != key,
            decreases self.entries.len() - i,
        {
            if self.entries[i].key == key {
                return Option::Some(i);
            }
            i += 1;
        }
        Option::None
    }

    /// Looks `key` up in this map alone.
    pub fn get(&self, key: StyleKey) -> (r: Option<(Value, Strength)>)
        ensures
            (match (r, map_lookup(self@, key)) {
                (Option::None, Option::None) => true,
                (Option::Some((v, s)), Option::Some(e)) => v@ == e.value && s == e.strength,
                _ => false,
            }),
    {
        match self.find_index(key) {
            Option::None => {
                proof {
                    lemma_lookup_skip(self@, key, self@.len() as int);
                    assert(self@.skip(self@.len() as int) =~= Seq::<EntryModel>::empty());
                }
                Option::None
            },
            Option::Some(i) => {
                proof {
                    lemma_lookup_skip(self@, key, i as int);
                    assert(self@.skip(i as int)[0] == self@[i as int]);
                }
                let e = &self.entries[i];
                Option::Some((e.value.duplicate(), e.strength))
            },
        }
    }

    /// Inserts or overwrites the entry for `key`.  Every other key keeps
    /// its binding.
    pub fn set(&mut self, key: StyleKey, value: Value, strength: Strength)
        ensures
            map_lookup(final(self)@, key) == Option::Some(
                (EntryModel { key, value: value@, strength }),
            ),
            forall|k: StyleKey|
                k != key ==> map_lookup(final(self)@, k) == map_lookup(old(self)@, k),
    {
        let ghost old_view = self@;
        let ghost e = EntryModel { key, value: value@, strength };
        match self.find_index(key) {
            Option::Some(i) => {
                self.entries[i] = StyleEntry { key, value, strength };
                proof {
                    assert(self@ =~= old_view.update(i as int, e));
                    lemma_lookup_skip(self@, key, i as int);
                    assert(self@.skip(i as int)[0] == self@[i as int]);
                    assert forall|k: StyleKey| k != key implies map_lookup(self@, k) == map_lookup(
                        old_view,
                        k,
                    ) by {
                        lemma_lookup_agrees(self@, old_view, k);
                    }
                }
            },
            Option::None => {
                self.entries.push(StyleEntry { key, value, strength });
                proof {
                    assert(self@ =~= old_view.push(e));
                    lemma_lookup_skip(old_view, key, old_view.len() as int);
                    assert(old_view.skip(old_view.len() as int) =~= Seq::<EntryModel>::empty());
                    lemma_lookup_push(old_view, e, key);
                    assert forall|k: StyleKey| k != key implies map_lookup(self@, k) == map_lookup(
                        old_view,
                        k,
                    ) by {
                        lemma_lookup_push(old_view, e, k);
                    }
                }
            },
        }
    }

    /// A structurally identical copy of this map.
    pub fn duplicate(&self) -> (r: StyleMap)
        ensures
            r@ == self@,
    {
        let mut entries: Vec<StyleEntry> = Vec::new();
        let mut i: usize = 0;
        while i < self.entries.len()
            invariant
                0 <= i <= self.entries.len(),
                entries@.map_values(|e: StyleEntry| e@) =~= self@.take(i as int),
            decreases self.entries.len() - i,
        {
            let e = &self.entries[i];
            entries.push(StyleEntry { key: e.key, value: e.value.duplicate(), strength: e.strength });
            proof {
                assert(self@.take(i + 1) =~= self@.take(i as int).push(self@[i as int]));
                assert(entries@.map_values(|e: StyleEntry| e@) =~= self@.take(i + 1));
            }
            i += 1;
        }
        let r = StyleMap { entries };
        proof {
            assert(r@ =~= self@);
        }
        r
    }
}

/// A persistent sequence of style scopes, innermost first.
#[derive(Debug)]
pub struct StyleChain {
    pub scopes: Vec<StyleMap>,
}

impl View for StyleChain {
    type V = Seq<Seq<EntryModel>>;

    open spec fn view(&self) -> Seq<Seq<EntryModel>> {
        self.scopes@.map_values(|m: StyleMap| m@)
    }
}

/// The innermost strong entry for `key`, if any scope holds one.
pub open spec fn strong_get(chain: Seq<Seq<EntryModel>>, key: StyleKey) -> Option<ValueModel>
    decreases chain.len(),
{
    if chain.len() == 0 {
        Option::None
    } else {
        match map_lookup(chain[0], key) {
            Option::Some(e) => if e.strength is Strong {
                Option::Some(e.value)
            } else {
                strong_get(chain.drop_first(), key)
            },
            Option::None => strong_get(chain.drop_first(), key),
        }
    }
}

/// The first-registered (outermost) weak entry for `key`, if any scope
/// holds one.
pub open spec fn weak_get(chain: Seq<Seq<EntryModel>>, key: StyleKey) -> Option<ValueModel>
    decreases chain.len(),
{
    if chain.len() == 0 {
        Option::None
    } else {
        match weak_get(chain.drop_first(), key) {
            Option::Some(v) => Option::Some(v),
            Option::None => match map_lookup(chain[0], key) {
                Option::Some(e) => if e.strength is Weak {
                    Option::Some(e.value)
                } else {
                    Option::None
                },
                Option::None => Option::None,
            },
        }
    }
}

/// The cascade: a strong entry always beats a weak one; among strong
/// entries the innermost wins; among weak entries the first-registered
/// (outermost) wins.
pub open spec fn chain_get(chain: Seq<Seq<EntryModel>>, key: StyleKey) -> Option<ValueModel> {
    match strong_get(chain, key) {
        Option::Some(v) => Option::Some(v),
        Option::None => weak_get(chain, key),
    }
}

/// The weak winner among the first `i` scopes alone, preferring the
/// outermost.
pub open spec fn prefix_weak(chain: Seq<Seq<EntryModel>>, i: int, key: StyleKey) -> Option<
    ValueModel,
>
    decreases i,
{
    if i <= 0 {
        Option::None
    } else {
        match map_lookup(chain[i - 1], key) {
            Option::Some(e) => if e.strength is Weak {
                Option::Some(e.value)
            } else {
                prefix_weak(chain, i - 1, key)
            },
            Option::None => prefix_weak(chain, i - 1, key),
        }
    }
}

proof fn lemma_strong_skip(chain: Seq<Seq<EntryModel>>, key: StyleKey, i: int)
    requires
        0 <= i <= chain.len(),
        forall|j: int|
            0 <= j < i ==> (match map_lookup(#[trigger] chain[j], key) {
                Option::Some(e) => e.strength is Weak,
                Option::None => true,
            }),
    ensures
        strong_get(chain, key) == strong_get(chain.skip(i), key),
    decreases i,
{
    if i > 0 {
        assert(chain.drop_first() =~= chain.skip(1));
        assert(forall|j: int|
            0 <= j < i - 1 ==> chain.skip(1)[j] == chain[j + 1]);
        lemma_strong_skip(chain.skip(1), key, i - 1);
        assert(chain.skip(1).skip(i - 1) =~= chain.skip(i));
    } else {
        assert(chain.skip(0) =~= chain);
    }
}

proof fn lemma_weak_split(chain: Seq<Seq<EntryModel>>, key: StyleKey, i: int)
    requires
        0 <= i <= chain.len(),
    ensures
        weak_get(chain, key) == (match weak_get(chain.skip(i), key) {
            Option::Some(v) => Option::Some(v),
            Option::None => prefix_weak(chain, i, key),
        }),
    decreases i,
{
    if i == 0 {
        assert(chain.skip(0) =~= chain);
    } else {
        lemma_weak_split(chain, key, i - 1);
        assert(chain.skip(i - 1).drop_first() =~= chain.skip(i));
        assert(chain.skip(i - 1)[0] == chain[i - 1]);
    }
}

impl StyleChain {
    /// A chain with no scopes at all.
    pub fn empty() -> (r: StyleChain)
        ensures
            r@ == Seq::<Seq<EntryModel>>::empty(),
    {
        let r = StyleChain { scopes: Vec::new() };
        proof {
            assert(r@ =~= Seq::<Seq<EntryModel>>::empty());
        }
        r
    }

    /// A new chain with `map` as an additional innermost scope.  The
    /// receiver is left untouched: outer scopes are shared by value, never
    /// mutated.
    pub fn prepended(&self, map: StyleMap) -> (r: StyleChain)
        ensures
            r@ == seq![map@] + self@,
    {
        let mut scopes: Vec<StyleMap> = Vec::new();
        let mut i: usize = 0;
        while i < self.scopes.len()
            invariant
                0 <= i <= self.scopes.len(),
                scopes@.map_values(|m: StyleMap| m@) =~= self@.take(i as int),
            decreases self.scopes.len() - i,
        {
            scopes.push(self.scopes[i].duplicate());
            proof {
                assert(self@.take(i + 1) =~= self@.take(i as int).push(self@[i as int]));
                assert(scopes@.map_values(|m: StyleMap| m@) =~= self@.take(i + 1));
            }
            i += 1;
        }
        proof {
            assert(scopes@.map_values(|m: StyleMap| m@) =~= self@);
        }
        scopes.insert(0, map);
        let r = StyleChain { scopes };
        proof {
            assert(r@ =~= seq![map@] + self@);
        }
        r
    }

    /// Resolves `key` against the whole chain, per the cascade rule.
    pub fn get(&self, key: StyleKey) -> (r: Option<Value>)
        ensures
            (match (r, chain_get(self@, key)) {
                (Option::None, Option::None) => true,
                (Option::Some(v), Option::Some(mv)) => v@ == mv,
                _ => false,
            }),
    {
        let mut weak_found: Option<Value> = Option::None;
        let mut i: usize = 0;
        while i < self.scopes.len()
            invariant
                0 <= i <= self.scopes.len(),
                self@.len() == self.scopes.len(),
                forall|j: int|
                    0 <= j < i ==> (match map_lookup(#[trigger] self@[j], key) {
                        Option::Some(e) => e.strength is Weak,
                        Option::None => true,
                    }),
                (match (weak_found, prefix_weak(self@, i as int, key)) {
                    (Option::None, Option::None) => true,
                    (Option::Some(v), Option::Some(mv)) => v@ == mv,
                    _ => false,
                }),
            decreases self.scopes.len() - i,
        {
            match self.scopes[i].get(key) {
                Option::Some((v, s)) => {
                    if matches!(s, Strength::Strong) {
                        proof {
                            lemma_strong_skip(self@, key, i as int);
                            assert(self@.skip(i as int)[0] == self@[i as int]);
                        }
                        return Option::Some(v);
                    } else {
                        weak_found = Option::Some(v);
                    }
                },
                Option::None => {},
            }
            i += 1;
        }
        proof {
            lemma_strong_skip(self@, key, self@.len() as int);
            assert(self@.skip(self@.len() as int) =~= Seq::<Seq<EntryModel>>::empty());
            lemma_weak_split(self@, key, self@.len() as int);
        }
        weak_found
    }
}

/// Law: a weak entry added as a new innermost scope defers to the chain.
/// If any outer scope settles the key — with either strength — the lookup
/// is unchanged; only when no outer scope mentions the key does the new
/// weak entry supply the value.
pub proof fn lemma_weak_overlay_defers(
    outer: Seq<Seq<EntryModel>>,
    overlay: Seq<EntryModel>,
    key: StyleKey,
    e: EntryModel,
)
    requires
        map_lookup(overlay, key) == Option::Some(e),
        e.strength is Weak,
    ensures
        chain_get(outer, key) is Some ==> chain_get(seq![overlay] + outer, key) == chain_get(
            outer,
            key,
        ),
        chain_get(outer, key) is None ==> chain_get(seq![overlay] + outer, key) == Option::Some(
            e.value,
        ),
{
    let c = seq![overlay] + outer;
    assert(c[0] == overlay);
    assert(c.drop_first() =~= outer);
}

/// Law: a strong entry added as a new innermost scope wins outright,
/// whatever the outer scopes say — in particular it overrides any outer
/// weak entry for the same key.
pub proof fn lemma_strong_overlay_wins(
    outer: Seq<Seq<EntryModel>>,
    overlay: Seq<EntryModel>,
    key: StyleKey,
    e: EntryModel,
)
    requires
        map_lookup(overlay, key) == Option::Some(e),
        e.strength is Strong,
    ensures
        chain_get(seq![overlay] + outer, key) == Option::Some(e.value),
{
    let c = seq![overlay] + outer;
    assert(c[0] == overlay);
}

} // verus!
