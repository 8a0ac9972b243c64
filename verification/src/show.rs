//! The show engine: resolves a node to replacement content by repeatedly
//! applying the highest-priority applicable recipe, under the guard
//! protocol that makes resolution terminate.
//!
//! Each pass guards the current node against the chosen recipe and
//! records the recipe as applied along this resolution path; a recipe is
//! never invoked twice on one path, so over a finite registry resolution
//! always completes within as many passes as there are recipes.

use vstd::prelude::*;

use crate::content::{ContentNode, NodeData, NodeModel, RecipeId, with_guard_model};
use crate::recipe::{
    apply_transform_model, lemma_pick_applies, pick_recipe, recipe_applies, registry_ids, Registry,
    RecipeModel, ResolutionError, ResolutionErrorModel,
};
use crate::styles::{EntryModel, StyleChain};

verus! {

/// The built-in default behaviour of a kind, used when no recipe applies:
/// a heading is wrapped into a generic block container holding its body;
/// a block stands for itself.
pub open spec fn default_show_model(m: NodeModel) -> NodeModel {
    match m.data {
        NodeData::Heading { .. } => NodeModel {
            data: NodeData::Block,
            body: m.body,
            guards: Set::empty(),
        },
        NodeData::Block => m,
    }
}

/// Realizes a node by its kind's built-in default behaviour.
pub fn default_show(node: &ContentNode) -> (r: ContentNode)
    ensures
        r@ == default_show_model(node@),
{
    match node.data {
        NodeData::Heading { .. } => {
            let body = match &node.body {
                Option::None => Option::None,
                Option::Some(b) => Option::Some(Box::new(b.duplicate())),
            };
            let r = ContentNode { data: NodeData::Block, body, guards: Vec::new() };
            proof {
                assert(r@.guards =~= Set::<RecipeId>::empty());
                assert(r@ =~~= default_show_model(node@));
            }
            r
        },
        NodeData::Block => node.duplicate(),
    }
}

/// One whole show-resolution, as a function of the node, the registry
/// snapshot, the style chain, the recipes already applied along this path,
/// and the number of passes still allowed.  The fuel is bookkeeping only:
/// it never runs out when it starts at the registry's size, because each
/// pass consumes a distinct recipe.
pub open spec fn resolve_show_model(
    node: NodeModel,
    reg: Seq<RecipeModel>,
    chain: Seq<Seq<EntryModel>>,
    applied: Set<RecipeId>,
    fuel: nat,
) -> Result<(NodeModel, NodeModel), ResolutionErrorModel>
    decreases fuel,
{
    match pick_recipe(reg, node, chain, applied) {
        Option::None => Result::Ok(((node, default_show_model(node)))),
        Option::Some(i) => {
            if fuel == 0 {
                Result::Ok(((node, default_show_model(node))))
            } else {
                let r = reg[i];
                let guarded = with_guard_model(node, r.id);
                match apply_transform_model(r.transform, r.id, guarded) {
                    Result::Err(e) => Result::Err(e),
                    Result::Ok(next) => resolve_show_model(
                        next,
                        reg,
                        chain,
                        applied.insert(r.id),
                        (fuel - 1) as nat,
                    ),
                }
            }
        },
    }
}

/// Resolves `node` under `registry` and `styles`: applies recipes until
/// none is a candidate any more, then realizes the settled node by its
/// kind's default behaviour.  Returns the settled node together with the
/// realized replacement content, or the first error a transform raised.
///
/// Resolution is a pure function of its inputs — the postcondition pins
/// the result to `resolve_show_model` — and it terminates for every input
/// because every pass consumes one more of the registry's finitely many
/// recipes.
#[verifier::loop_isolation(false)]
pub fn resolve_show(
    node: ContentNode,
    registry: &Registry,
    styles: &StyleChain,
) -> (r: Result<(ContentNode, ContentNode), ResolutionError>)
    requires
        registry.wf(),
    ensures
        (match (r, resolve_show_model(
            node@,
            registry@,
            styles@,
            Set::empty(),
            registry@.len() as nat,
        )) {
            (Result::Ok((settled, realized)), Result::Ok(m)) => settled@ == m.0 && realized@
                == m.1,
            (Result::Err(e), Result::Err(em)) => e@ == em,
            _ => false,
        }),
{
    let ghost target = resolve_show_model(
        node@,
        registry@,
        styles@,
        Set::empty(),
        registry@.len() as nat,
    );
    let mut cur = node;
    let mut applied: Vec<RecipeId> = Vec::new();
    proof {
        assert(applied@.to_set() =~= Set::<RecipeId>::empty());
    }
    loop
        invariant
            registry.wf(),
            applied@.no_duplicates(),
            applied.len() <= registry@.len(),
            forall|j: int|
                0 <= j < applied@.len() ==> registry_ids(registry@).contains(#[trigger] applied@[j]),
            resolve_show_model(
                cur@,
                registry@,
                styles@,
                applied@.to_set(),
                (registry@.len() - applied@.len()) as nat,
            ) == target,
        decreases registry@.len() - applied@.len(),
    {
        match registry.pick(&cur, styles, &applied) {
            Option::None => {
                let realized = default_show(&cur);
                return Result::Ok((cur, realized));
            },
            Option::Some(i) => {
                proof {
                    lemma_pick_applies(registry@, cur@, styles@, applied@.to_set());
                    let id = registry@[i as int].id;
                    assert(recipe_applies(registry@[i as int], cur@, styles@, applied@.to_set()));
                    assert(registry_ids(registry@)[i as int] == id);
                    assert(registry_ids(registry@).contains(id));
                    // The picked recipe is new on this path, so fewer
                    // recipes have been applied than the registry holds.
                    applied@.unique_seq_to_set();
                    registry_ids(registry@).lemma_cardinality_of_set();
                    vstd::seq_lib::seq_to_set_is_finite(registry_ids(registry@));
                    assert(applied@.to_set().insert(id).subset_of(
                        registry_ids(registry@).to_set(),
                    ));
                    vstd::set_lib::lemma_len_subset(
                        applied@.to_set().insert(id),
                        registry_ids(registry@).to_set(),
                    );
                    assert(applied@.len() < registry@.len());
                }
                let rec = &registry.recipes[i];
                let guarded = cur.with_guard(rec.id);
                match rec.invoke(guarded) {
                    Result::Err(e) => {
                        return Result::Err(e);
                    },
                    Result::Ok(next) => {
                        let ghost old_applied = applied@;
                        applied.push(rec.id);
                        proof {
                            old_applied.lemma_push_to_set_commute(rec.id);
                            assert(applied@.to_set() =~= old_applied.to_set().insert(rec.id));
                            assert(applied@.no_duplicates()) by {
                                assert(forall|p: int|
                                    0 <= p < old_applied.len() ==> applied@[p] == old_applied[p]);
                                assert(!old_applied.contains(rec.id)) by {
                                    assert(!old_applied.to_set().contains(rec.id));
                                }
                            }
                        }
                        cur = next;
                    },
                }
            },
        }
    }
}

} // verus!
