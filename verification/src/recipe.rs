//! Registered rewrite rules.
//!
//! A recipe matches nodes of one kind, optionally only under a style
//! condition, and rewrites a matching node into replacement content.  The
//! registry is an ordered, read-only collection; among several applicable
//! recipes the most recently registered one has priority.

use vstd::prelude::*;

use crate::content::{guards_contain, ContentNode, ElemKind, NodeData, NodeModel, RecipeId, kind_of};
use crate::styles::{chain_get, EntryModel, StyleChain, StyleKey};
use crate::value::{Value, ValueModel};

verus! {

/// What a recipe does to the guarded node it is invoked on.
#[derive(Debug)]
pub enum Transform {
    /// Hands the guarded node back unchanged, guards included.
    Identity,
    /// Reconstructs the node from its parts: same data and body, but a
    /// fresh (empty) guard set — the output is structurally equal to the
    /// recipe's un-guarded input whenever that input was freshly built.
    Rebuild,
    /// Replaces the node by a fixed piece of content.
    Replace(Box<ContentNode>),
    /// Wraps the guarded node in a generic block container.
    WrapBlock,
    /// Aborts resolution of this subtree with the given cause.
    Fail(String),
}

/// The mathematical model of a transform.
pub enum TransformModel {
    Identity,
    Rebuild,
    Replace(NodeModel),
    WrapBlock,
    Fail(Seq<char>),
}

impl View for Transform {
    type V = TransformModel;

    open spec fn view(&self) -> TransformModel {
        match self {
            Transform::Identity => TransformModel::Identity,
            Transform::Rebuild => TransformModel::Rebuild,
            Transform::Replace(n) => TransformModel::Replace((**n).model()),
            Transform::WrapBlock => TransformModel::WrapBlock,
            Transform::Fail(s) => TransformModel::Fail(s@),
        }
    }
}

/// An error raised while resolving a subtree: the offending recipe and a
/// cause, surfaced verbatim to the caller.
#[derive(Debug)]
pub struct ResolutionError {
    pub recipe: RecipeId,
    pub cause: String,
}

/// The mathematical model of a resolution error.
pub struct ResolutionErrorModel {
    pub recipe: RecipeId,
    pub cause: Seq<char>,
}

impl View for ResolutionError {
    type V = ResolutionErrorModel;

    open spec fn view(&self) -> ResolutionErrorModel {
        ResolutionErrorModel { recipe: self.recipe, cause: self.cause@ }
    }
}

/// One registered rewrite rule.
#[derive(Debug)]
pub struct Recipe {
    /// This recipe's identifier, used by the guard protocol.
    pub id: RecipeId,
    /// The kind of node this recipe rewrites.
    pub kind: ElemKind,
    /// If present, the recipe applies only where the chain resolves the
    /// given key to the given value.
    pub scope: Option<(StyleKey, Value)>,
    pub transform: Transform,
}

/// The mathematical model of a recipe.
pub struct RecipeModel {
    pub id: RecipeId,
    pub kind: ElemKind,
    pub scope: Option<(StyleKey, ValueModel)>,
    pub transform: TransformModel,
}

impl View for Recipe {
    type V = RecipeModel;

    open spec fn view(&self) -> RecipeModel {
        RecipeModel {
            id: self.id,
            kind: self.kind,
            scope: match self.scope {
                Option::None => Option::None,
                Option::Some((k, v)) => Option::Some((k, v@)),
            },
            transform: self.transform@,
        }
    }
}

/// Whether `r` is a candidate for `node` under `chain`, with `blocked`
/// holding the recipes already applied along the current resolution path.
pub open spec fn recipe_applies(
    r: RecipeModel,
    node: NodeModel,
    chain: Seq<Seq<EntryModel>>,
    blocked: Set<RecipeId>,
) -> bool {
    &&& r.kind == kind_of(node.data)
    &&& !node.guards.contains(r.id)
    &&& !blocked.contains(r.id)
    &&& (match r.scope {
        Option::None => true,
        Option::Some((k, v)) => chain_get(chain, k) == Option::Some(v),
    })
}

/// What invoking a recipe's transform on the guarded node yields.
pub open spec fn apply_transform_model(
    t: TransformModel,
    id: RecipeId,
    guarded: NodeModel,
) -> Result<NodeModel, ResolutionErrorModel> {
    match t {
        TransformModel::Identity => Result::Ok(guarded),
        TransformModel::Rebuild => Result::Ok(
            (NodeModel { data: guarded.data, body: guarded.body, guards: Set::empty() }),
        ),
        TransformModel::Replace(m) => Result::Ok(m),
        TransformModel::WrapBlock => Result::Ok(
            (NodeModel { data: NodeData::Block, body: seq![guarded], guards: Set::empty() }),
        ),
        TransformModel::Fail(cause) => Result::Err((ResolutionErrorModel { recipe: id, cause })),
    }
}

impl Recipe {
    /// Whether this recipe is a candidate for `node` right now.
    pub fn applies(
        &self,
        node: &ContentNode,
        styles: &StyleChain,
        applied: &Vec<RecipeId>,
    ) -> (r: bool)
        ensures
            r == recipe_applies(self@, node@, styles@, applied@.to_set()),
    {
        let kind_matches = match node.data {
            NodeData::Heading { .. } => matches!(self.kind, ElemKind::Heading),
            NodeData::Block => matches!(self.kind, ElemKind::Block),
        };
        if !kind_matches {
            return false;
        }
        if guards_contain(&node.guards, self.id) {
            return false;
        }
        if guards_contain(applied, self.id) {
            return false;
        }
        match &self.scope {
            Option::None => true,
            Option::Some((k, v)) => match styles.get(*k) {
                Option::Some(found) => found.equals(v),
                Option::None => false,
            },
        }
    }

    /// Invokes this recipe's transform on the guarded node.
    pub fn invoke(&self, guarded: ContentNode) -> (r: Result<ContentNode, ResolutionError>)
        ensures
            (match (r, apply_transform_model(self@.transform, self@.id, guarded@)) {
                (Result::Ok(n), Result::Ok(m)) => n@ == m,
                (Result::Err(e), Result::Err(em)) => e@ == em,
                _ => false,
            }),
    {
        match &self.transform {
            Transform::Identity => Result::Ok(guarded),
            Transform::Rebuild => {
                let r = ContentNode {
                    data: guarded.data,
                    body: guarded.body,
                    guards: Vec::new(),
                };
                proof {
                    assert(r@.guards =~= Set::<RecipeId>::empty());
                    assert(r@ =~~= (NodeModel {
                        data: guarded@.data,
                        body: guarded@.body,
                        guards: Set::empty(),
                    }));
                }
                Result::Ok(r)
            },
            Transform::Replace(n) => Result::Ok(n.duplicate()),
            Transform::WrapBlock => {
                let r = ContentNode {
                    data: NodeData::Block,
                    body: Option::Some(Box::new(guarded)),
                    guards: Vec::new(),
                };
                proof {
                    assert(r@.guards =~= Set::<RecipeId>::empty());
                    assert(r@ =~~= (NodeModel {
                        data: NodeData::Block,
                        body: seq![guarded@],
                        guards: Set::empty(),
                    }));
                }
                Result::Ok(r)
            },
            Transform::Fail(msg) => Result::Err(
                ResolutionError { recipe: self.id, cause: msg.clone() },
            ),
        }
    }
}

/// The identifiers of a registry's recipes, in registration order.
pub open spec fn registry_ids(reg: Seq<RecipeModel>) -> Seq<RecipeId> {
    reg.map_values(|r: RecipeModel| r.id)
}

/// The read-only registry of recipes consulted during show-resolution,
/// in registration order.
#[derive(Debug)]
pub struct Registry {
    pub recipes: Vec<Recipe>,
}

impl View for Registry {
    type V = Seq<RecipeModel>;

    open spec fn view(&self) -> Seq<RecipeModel> {
        self.recipes@.map_values(|r: Recipe| r@)
    }
}

/// The highest-priority candidate: the most recently registered recipe
/// that applies.
pub open spec fn pick_recipe(
    reg: Seq<RecipeModel>,
    node: NodeModel,
    chain: Seq<Seq<EntryModel>>,
    blocked: Set<RecipeId>,
) -> Option<int>
    decreases reg.len(),
{
    if reg.len() == 0 {
        Option::None
    } else if recipe_applies(reg.last(), node, chain, blocked) {
        Option::Some(reg.len() - 1)
    } else {
        pick_recipe(reg.drop_last(), node, chain, blocked)
    }
}

/// A successful pick names an applicable recipe.
pub proof fn lemma_pick_applies(
    reg: Seq<RecipeModel>,
    node: NodeModel,
    chain: Seq<Seq<EntryModel>>,
    blocked: Set<RecipeId>,
)
    ensures
        (match pick_recipe(reg, node, chain, blocked) {
            Option::Some(i) => 0 <= i < reg.len() && recipe_applies(reg[i], node, chain, blocked),
            Option::None => true,
        }),
    decreases reg.len(),
{
    if reg.len() > 0 && !recipe_applies(reg.last(), node, chain, blocked) {
        lemma_pick_applies(reg.drop_last(), node, chain, blocked);
    }
}

impl Registry {
    /// Well-formedness: recipe identifiers are unique, so that guarding a
    /// node against an identifier suppresses exactly one recipe.
    pub open spec fn wf(&self) -> bool {
        registry_ids(self@).no_duplicates()
    }

    /// Runtime check of `wf`, for callers outside the verified core.
    pub fn check_wf(&self) -> (r: bool)
        ensures
            r == self.wf(),
    {
        let mut i: usize = 0;
        while i < self.recipes.len()
            invariant
                0 <= i <= self.recipes.len(),
                forall|p: int, q: int|
                    0 <= p < q < i ==> registry_ids(self@)[p] != registry_ids(self@)[q],
            decreases self.recipes.len() - i,
        {
            let mut j: usize = 0;
            while j < i
                invariant
                    0 <= j <= i < self.recipes.len(),
                    forall|p: int| 0 <= p < j ==> registry_ids(self@)[p] != registry_ids(self@)[
                        i as int
                    ],
                decreases i - j,
            {
                if self.recipes[j].id == self.recipes[i].id {
                    proof {
                        assert(registry_ids(self@)[j as int] == registry_ids(self@)[i as int]);
                    }
                    return false;
                }
                j += 1;
            }
            i += 1;
        }
        true
    }

    /// The index of the highest-priority applicable recipe, scanning from
    /// the most recently registered backwards.
    pub fn pick(
        &self,
        node: &ContentNode,
        styles: &StyleChain,
        applied: &Vec<RecipeId>,
    ) -> (r: Option<usize>)
        ensures
            (match r {
                Option::Some(i) => i < self@.len() && pick_recipe(
                    self@,
                    node@,
                    styles@,
                    applied@.to_set(),
                ) == Option::Some(i as int),
                Option::None => pick_recipe(self@, node@, styles@, applied@.to_set()) is None,
            }),
    {
        let ghost blocked = applied@.to_set();
        let mut i: usize = self.recipes.len();
        proof {
            assert(self@.take(self@.len() as int) =~= self@);
        }
        while i > 0
            invariant
                0 <= i <= self.recipes.len(),
                self@.len() == self.recipes.len(),
                blocked == applied@.to_set(),
                pick_recipe(self@, node@, styles@, blocked) == pick_recipe(
                    self@.take(i as int),
                    node@,
                    styles@,
                    blocked,
                ),
            decreases i,
        {
            i -= 1;
            proof {
                assert(self@.take(i + 1).last() == self@[i as int]);
                assert(self@.take(i + 1).drop_last() =~= self@.take(i as int));
            }
            if self.recipes[i].applies(node, styles, applied) {
                return Option::Some(i);
            }
        }
        proof {
            assert(self@.take(0) =~= Seq::<RecipeModel>::empty());
        }
        Option::None
    }
}

} // verus!
