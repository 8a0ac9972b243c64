//! The top of the pipeline: show-resolution followed by exactly one
//! finalize step on the node that resolution settled on.

use vstd::prelude::*;

use crate::content::{
    with_guard_model, ContentNode, NodeData, NodeModel, RecipeId,
};
use crate::heading::{heading_overlay, heading_overlay_lookup};
use crate::recipe::{recipe_applies, Registry, RecipeModel, ResolutionError};
use crate::show::{default_show_model, resolve_show, resolve_show_model};
use crate::styles::{map_lookup, EntryModel, StyleChain, StyleKey, StyleMap};

verus! {

/// Finalized content: the realized replacement together with the defaults
/// overlay derived from the settled node's own fields.  The overlay is
/// meant to become a new innermost scope over the chain the content is
/// laid out under; outer scopes are never touched.
#[derive(Debug)]
pub struct StyledContent {
    pub content: ContentNode,
    pub styles: StyleMap,
}

impl StyledContent {
    /// The style chain the finalized content is laid out under: the
    /// overlay prepended to the surrounding chain as its innermost scope.
    pub fn chained(&self, outer: &StyleChain) -> (r: StyleChain)
        ensures
            r@ == seq![self.styles@] + outer@,
    {
        outer.prepended(self.styles.duplicate())
    }
}

/// The finalize overlay of a settled node, keyed by the node's own
/// discriminating field; a plain block gets no defaults.
pub open spec fn overlay_lookup(m: NodeModel, k: StyleKey) -> Option<EntryModel> {
    match m.data {
        NodeData::Heading { level } => heading_overlay_lookup(level, k),
        NodeData::Block => Option::None,
    }
}

/// Builds the finalize overlay for a settled node.
pub fn finalize_overlay(node: &ContentNode) -> (r: StyleMap)
    ensures
        forall|k: StyleKey| map_lookup(r@, k) == overlay_lookup(node@, k),
{
    match node.data {
        NodeData::Heading { level } => heading_overlay(level),
        NodeData::Block => {
            let r = StyleMap::new();
            r
        },
    }
}

/// Resolves `node` to finalized content: show-resolution settles on a
/// node and realizes it, then finalize runs exactly once on the settled
/// node, deriving the defaults overlay from that node's own fields — not
/// from the realized replacement's.
///
/// The outcome is pinned to a function of the inputs alone, so two
/// independent resolutions of equal inputs yield equal content and equal
/// overlays.
pub fn resolve(node: ContentNode, registry: &Registry, styles: &StyleChain) -> (r: Result<
    StyledContent,
    ResolutionError,
>)
    requires
        registry.wf(),
    ensures
        (match (r, resolve_show_model(
            node@,
            registry@,
            styles@,
            Set::empty(),
            registry@.len() as nat,
        )) {
            (Result::Ok(sc), Result::Ok(m)) => sc.content@ == m.1 && forall|k: StyleKey|
                map_lookup(sc.styles@, k) == overlay_lookup(m.0, k),
            (Result::Err(e), Result::Err(em)) => e@ == em,
            _ => false,
        }),
{
    match resolve_show(node, registry, styles) {
        Result::Ok((settled, realized)) => {
            let overlay = finalize_overlay(&settled);
            Result::Ok(StyledContent { content: realized, styles: overlay })
        },
        Result::Err(e) => Result::Err(e),
    }
}

/// A node none of whose parts carries any guard — the state of freshly
/// constructed content.
pub open spec fn guard_free(m: NodeModel) -> bool
    decreases m,
{
    &&& m.guards == Set::<RecipeId>::empty()
    &&& m.body.len() <= 1
    &&& (m.body.len() == 1 ==> guard_free(m.body[0]))
}

/// Removing a guard from a guard-free node changes nothing.
pub proof fn lemma_guard_free_unguard(m: NodeModel, id: RecipeId)
    requires
        guard_free(m),
    ensures
        crate::content::unguard_model(m, id) == m,
    decreases m,
{
    if m.body.len() == 1 {
        lemma_guard_free_unguard(m.body[0], id);
        assert(seq![crate::content::unguard_model(m.body[0], id)] =~= m.body);
    } else {
        assert(m.body =~= Seq::<NodeModel>::empty());
    }
    assert(m.guards.remove(id) =~= m.guards);
    assert(crate::content::unguard_model(m, id) =~~= m);
}

/// Law — guard termination: a recipe that reconstructs its input, so that
/// its output is structurally equal to the pre-guard node `n`, is applied
/// exactly once: resolution under a registry holding just that recipe
/// settles on `n` after a single pass instead of recursing forever, and
/// the settled node is realized by the kind's default behaviour.
pub proof fn lemma_reconstructing_recipe_applies_once(
    n: NodeModel,
    r: RecipeModel,
    chain: Seq<Seq<EntryModel>>,
)
    requires
        r.transform is Rebuild,
        guard_free(n),
        recipe_applies(r, n, chain, Set::empty()),
    ensures
        resolve_show_model(n, seq![r], chain, Set::empty(), 1) == Result::<
            (NodeModel, NodeModel),
            crate::recipe::ResolutionErrorModel,
        >::Ok(((n, default_show_model(n)))),
{
    let reg = seq![r];
    assert(reg.last() == r);
    assert(crate::recipe::pick_recipe(reg, n, chain, Set::empty()) == Option::Some(0int));
    let guarded = with_guard_model(n, r.id);
    if n.body.len() == 1 {
        lemma_guard_free_unguard(n.body[0], r.id);
        assert(guarded.body =~= n.body);
    } else {
        assert(guarded.body =~= n.body);
    }
    let next = NodeModel { data: guarded.data, body: guarded.body, guards: Set::empty() };
    assert(next =~~= n);
    let blocked = Set::<RecipeId>::empty().insert(r.id);
    assert(blocked.contains(r.id));
    assert(!recipe_applies(r, n, chain, blocked));
    assert(reg.drop_last() =~= Seq::<RecipeModel>::empty());
    assert(crate::recipe::pick_recipe(reg.drop_last(), n, chain, blocked) is None);
    assert(crate::recipe::pick_recipe(reg, n, chain, blocked) is None);
    assert(resolve_show_model(n, reg, chain, blocked, 0) == Result::<
        (NodeModel, NodeModel),
        crate::recipe::ResolutionErrorModel,
    >::Ok(((n, default_show_model(n)))));
    assert(resolve_show_model(n, reg, chain, Set::empty(), 1) == resolve_show_model(
        next,
        reg,
        chain,
        Set::empty().insert(r.id),
        0,
    ));
}

/// Law — resolution is deterministic: the outcome of show-resolution is a
/// function of the node, the registry snapshot and the style chain alone,
/// so two independent resolutions of the same inputs settle identically
/// and hand finalize the same node.
pub proof fn lemma_resolution_deterministic(
    n1: NodeModel,
    n2: NodeModel,
    reg1: Seq<RecipeModel>,
    reg2: Seq<RecipeModel>,
    chain1: Seq<Seq<EntryModel>>,
    chain2: Seq<Seq<EntryModel>>,
)
    requires
        n1 == n2,
        reg1 == reg2,
        chain1 == chain2,
    ensures
        resolve_show_model(n1, reg1, chain1, Set::empty(), reg1.len() as nat)
            == resolve_show_model(n2, reg2, chain2, Set::empty(), reg2.len() as nat),
{
}

} // verus!
