//! Immutable content elements.
//!
//! A [`ContentNode`] is one element instance: kind-specific data, an optional
//! nested body (so nodes form a finite tree, built bottom-up), and the set of
//! recipe identifiers already applied to — and therefore suppressed for —
//! this particular node.  Nodes are compared and hashed structurally, which
//! is what makes memoized re-evaluation keyed by whole-subtree identity
//! possible.

use vstd::prelude::*;

verus! {

/// Identifier of a registered recipe: a small integer index into the
/// recipe table, cheap to compare and hash.
pub type RecipeId = u64;

/// The closed set of element kinds this core knows.
#[derive(Debug, Clone, Copy, PartialEq, Eq, Hash, Structural)]
pub enum ElemKind {
    /// A section heading.
    Heading,
    /// A generic block container.
    Block,
}

/// Kind-specific payload of a node: its typed fields.
#[derive(Debug, Clone, Copy, PartialEq, Eq, Hash, Structural)]
pub enum NodeData {
    /// A section heading; `level` is the logical nesting depth, always >= 1.
    Heading { level: i64 },
    /// A generic block container carries no fields of its own.
    Block,
}

/// The kind that a payload belongs to.
pub open spec fn kind_of(data: NodeData) -> ElemKind {
    match data {
        NodeData::Heading { .. } => ElemKind::Heading,
        NodeData::Block => ElemKind::Block,
    }
}

/// Field invariants of a payload: a heading's nesting depth is positive.
pub open spec fn data_wf(data: NodeData) -> bool {
    match data {
        NodeData::Heading { level } => level >= 1,
        NodeData::Block => true,
    }
}

/// One immutable content element.
#[derive(Debug, Hash)]
pub struct ContentNode {
    /// The element's kind together with its scalar fields.
    pub data: NodeData,
    /// The nested body, where the kind has one.
    pub body: Option<Box<ContentNode>>,
    /// Recipes already applied to this node.  Order and multiplicity carry
    /// no meaning: the node's abstract guard set is what counts.
    pub guards: Vec<RecipeId>,
}

/// The mathematical model of a node: the body is a sequence of zero or one
/// element models, and the guards are a set.
#[verifier::ext_equal]
pub struct NodeModel {
    pub data: NodeData,
    pub body: Seq<NodeModel>,
    pub guards: Set<RecipeId>,
}

impl ContentNode {
    /// The abstract value of this node.
    pub open spec fn model(self) -> NodeModel
        decreases self,
    {
        NodeModel {
            data: self.data,
            body: match self.body {
                Option::None => Seq::empty(),
                Option::Some(b) => seq![(*b).model()],
            },
            guards: self.guards@.to_set(),
        }
    }
}

impl View for ContentNode {
    type V = NodeModel;

    open spec fn view(&self) -> NodeModel {
        self.model()
    }
}

/// Validity of a node model: payload invariants hold, the body is absent or
/// a single valid node, and a heading always carries its body.
pub open spec fn node_wf(m: NodeModel) -> bool
    decreases m,
{
    &&& data_wf(m.data)
    &&& m.body.len() <= 1
    &&& (m.data is Heading ==> m.body.len() == 1)
    &&& (m.body.len() == 1 ==> node_wf(m.body[0]))
}

/// Removal of one guard everywhere in a subtree.
pub open spec fn unguard_model(m: NodeModel, id: RecipeId) -> NodeModel
    decreases m,
{
    NodeModel {
        data: m.data,
        body: if m.body.len() == 0 {
            Seq::empty()
        } else {
            seq![unguard_model(m.body[0], id)]
        },
        guards: m.guards.remove(id),
    }
}

/// The guarding step that precedes a recipe invocation: the node itself
/// gains the recipe's guard, while every sub-node of its body loses it, so
/// that parts reused verbatim by the recipe's output are not blocked from
/// further rewriting.
pub open spec fn with_guard_model(m: NodeModel, id: RecipeId) -> NodeModel {
    NodeModel {
        data: m.data,
        body: if m.body.len() == 0 {
            Seq::empty()
        } else {
            seq![unguard_model(m.body[0], id)]
        },
        guards: m.guards.insert(id),
    }
}

/// Whether `g` holds `id`.
pub fn guards_contain(g: &Vec<RecipeId>, id: RecipeId) -> (r: bool)
    ensures
        r == g@.contains(id),
{
    let mut i: usize = 0;
    while i < g.len()
        invariant
            0 <= i <= g.len(),
            forall|j: int| 0 <= j < i ==> g@[j] != id,
        decreases g.len() - i,
    {
        if g[i] == id {
            return true;
        }
        i += 1;
    }
    false
}

/// A copy of a guard vector.
fn copy_guards(g: &Vec<RecipeId>) -> (r: Vec<RecipeId>)
    ensures
        r@ == g@,
{
    let mut out: Vec<RecipeId> = Vec::new();
    let mut i: usize = 0;
    while i < g.len()
        invariant
            0 <= i <= g.len(),
            out@ =~= g@.take(i as int),
        decreases g.len() - i,
    {
        out.push(g[i]);
        i += 1;
    }
    proof {
        assert(out@ =~= g@);
    }
    out
}

impl ContentNode {
    /// A structurally identical copy of this node.
    pub fn duplicate(&self) -> (r: ContentNode)
        ensures
            r@ == self@,
        decreases *self,
    {
        let body = match &self.body {
            Option::None => Option::None,
            Option::Some(b) => Option::Some(Box::new(b.duplicate())),
        };
        let r = ContentNode { data: self.data, body, guards: copy_guards(&self.guards) };
        proof {
            assert(r@ =~~= self@);
        }
        r
    }

    /// Removes `id` from the guard set of this node and of every node in
    /// its body.
    pub fn unguard(&self, id: RecipeId) -> (r: ContentNode)
        ensures
            r@ == unguard_model(self@, id),
        decreases *self,
    {
        let body = match &self.body {
            Option::None => Option::None,
            Option::Some(b) => Option::Some(Box::new(b.unguard(id))),
        };
        let mut guards: Vec<RecipeId> = Vec::new();
        let mut i: usize = 0;
        while i < self.guards.len()
            invariant
                0 <= i <= self.guards.len(),
                guards@.to_set() =~= self.guards@.take(i as int).to_set().remove(id),
            decreases self.guards.len() - i,
        {
            proof {
                assert(self.guards@.take(i + 1) =~= self.guards@.take(i as int).push(
                    self.guards@[i as int],
                ));
                self.guards@.take(i as int).lemma_push_to_set_commute(self.guards@[i as int]);
                guards@.lemma_push_to_set_commute(self.guards@[i as int]);
            }
            if self.guards[i] != id {
                guards.push(self.guards[i]);
            }
            i += 1;
        }
        proof {
            assert(self.guards@.take(self.guards@.len() as int) =~= self.guards@);
        }
        let r = ContentNode { data: self.data, body, guards };
        proof {
            assert(r@ =~~= unguard_model(self@, id));
        }
        r
    }

    /// Guards this node against `id` while unguarding its parts, as the
    /// show engine does right before invoking the recipe `id`.
    pub fn with_guard(&self, id: RecipeId) -> (r: ContentNode)
        ensures
            r@ == with_guard_model(self@, id),
    {
        let body = match &self.body {
            Option::None => Option::None,
            Option::Some(b) => Option::Some(Box::new(b.unguard(id))),
        };
        let mut guards = copy_guards(&self.guards);
        if !guards_contain(&guards, id) {
            proof {
                guards@.lemma_push_to_set_commute(id);
            }
            guards.push(id);
        }
        let r = ContentNode { data: self.data, body, guards };
        proof {
            assert(r@.guards =~= self@.guards.insert(id));
            assert(r@ =~~= with_guard_model(self@, id));
        }
        r
    }

    /// Structural comparison: equal kind and fields, equal body, and equal
    /// guard set.
    pub fn structural_eq(&self, other: &ContentNode) -> (r: bool)
        ensures
            r == (self@ == other@),
        decreases *self,
    {
        if self.data != other.data {
            return false;
        }
        match (&self.body, &other.body) {
            (Option::None, Option::None) => {},
            (Option::Some(a), Option::Some(b)) => {
                if !a.structural_eq(b) {
                    proof {
                        if self@ == other@ {
                            assert(self@.body[0] == other@.body[0]);
                        }
                    }
                    return false;
                }
            },
            _ => {
                proof {
                    assert(self@.body.len() != other@.body.len());
                }
                return false;
            },
        }
        let r = guard_sets_eq(&self.guards, &other.guards);
        proof {
            if r {
                assert(self@ =~~= other@);
            }
        }
        r
    }
}

/// Whether two guard vectors denote the same set.
pub fn guard_sets_eq(a: &Vec<RecipeId>, b: &Vec<RecipeId>) -> (r: bool)
    ensures
        r == (a@.to_set() == b@.to_set()),
{
    let mut i: usize = 0;
    while i < a.len()
        invariant
            0 <= i <= a.len(),
            forall|j: int| 0 <= j < i ==> b@.contains(#[trigger] a@[j]),
        decreases a.len() - i,
    {
        if !guards_contain(b, a[i]) {
            proof {
                assert(a@.to_set().contains(a@[i as int]));
            }
            return false;
        }
        i += 1;
    }
    let mut j: usize = 0;
    while j < b.len()
        invariant
            0 <= j <= b.len(),
            forall|k: int| 0 <= k < a@.len() ==> b@.contains(#[trigger] a@[k]),
            forall|k: int| 0 <= k < j ==> a@.contains(#[trigger] b@[k]),
        decreases b.len() - j,
    {
        if !guards_contain(a, b[j]) {
            proof {
                assert(b@.to_set().contains(b@[j as int]));
            }
            return false;
        }
        j += 1;
    }
    proof {
        assert(a@.to_set() =~= b@.to_set());
    }
    true
}

/// Law — structural identity: two nodes are equal exactly when their kind
/// and fields, their bodies, and their guard sets all are.  Hashing is
/// derived structurally over the same components, so equal nodes hash
/// alike and a change to any field, however deeply nested, changes the
/// value being hashed.
pub proof fn lemma_structural_identity(a: NodeModel, b: NodeModel)
    ensures
        (a == b) <==> (a.data == b.data && a.body == b.body && a.guards == b.guards),
{
    if a.data == b.data && a.body == b.body && a.guards == b.guards {
        assert(a =~~= b);
    }
}

impl PartialEq for ContentNode {
    /// Structural equality, usable by hash-based memoization outside the
    /// verified core.
    fn eq(&self, other: &ContentNode) -> (r: bool) {
        self.structural_eq(other)
    }
}

impl vstd::std_specs::cmp::PartialEqSpecImpl for ContentNode {
    open spec fn obeys_eq_spec() -> bool {
        true
    }

    open spec fn eq_spec(&self, other: &ContentNode) -> bool {
        self@ == other@
    }
}

} // verus!
