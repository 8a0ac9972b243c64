//! Typed values: what field introspection returns and what style entries
//! hold.

use vstd::prelude::*;

use crate::content::{ContentNode, NodeModel};

verus! {

/// A length relative to the current font size, stored in hundredths of an
/// em so that the defaults table (1.4em, 1.44em, 0.66em, ...) is exact.
#[derive(Debug, Clone, Copy, PartialEq, Eq, Hash, Structural)]
pub struct Em {
    pub hundredths: u64,
}

impl Em {
    /// The length `hundredths / 100` em.
    pub fn new(hundredths: u64) -> (r: Em)
        ensures
            r.hundredths == hundredths,
    {
        Em { hundredths }
    }
}

/// A typed value.
#[derive(Debug, Hash)]
pub enum Value {
    /// An integer, as carried by a heading's `level` field.
    Int(i64),
    /// A relative length.
    Size(Em),
    /// A font weight on the usual 100..=900 scale.
    Weight(u64),
    /// A whole content subtree, as carried by a `body` field.
    Content(Box<ContentNode>),
}

/// The mathematical model of a value: scalars stand for themselves and
/// content is taken to its node model.
pub enum ValueModel {
    Int(i64),
    Size(Em),
    Weight(u64),
    Content(NodeModel),
}

impl Value {
    pub open spec fn model(self) -> ValueModel {
        match self {
            Value::Int(i) => ValueModel::Int(i),
            Value::Size(e) => ValueModel::Size(e),
            Value::Weight(w) => ValueModel::Weight(w),
            Value::Content(b) => ValueModel::Content((*b).model()),
        }
    }
}

impl View for Value {
    type V = ValueModel;

    open spec fn view(&self) -> ValueModel {
        self.model()
    }
}

impl Value {
    /// A structurally identical copy of this value.
    pub fn duplicate(&self) -> (r: Value)
        ensures
            r@ == self@,
    {
        match self {
            Value::Int(i) => Value::Int(*i),
            Value::Size(e) => Value::Size(*e),
            Value::Weight(w) => Value::Weight(*w),
            Value::Content(b) => Value::Content(Box::new(b.duplicate())),
        }
    }

    /// Structural comparison of two values.
    pub fn equals(&self, other: &Value) -> (r: bool)
        ensures
            r == (self@ == other@),
    {
        match (self, other) {
            (Value::Int(a), Value::Int(b)) => *a == *b,
            (Value::Size(a), Value::Size(b)) => *a == *b,
            (Value::Weight(a), Value::Weight(b)) => *a == *b,
            (Value::Content(a), Value::Content(b)) => a.structural_eq(b),
            _ => false,
        }
    }
}

impl PartialEq for Value {
    fn eq(&self, other: &Value) -> (r: bool) {
        self.equals(other)
    }
}

impl vstd::std_specs::cmp::PartialEqSpecImpl for Value {
    open spec fn obeys_eq_spec() -> bool {
        true
    }

    open spec fn eq_spec(&self, other: &Value) -> bool {
        self@ == other@
    }
}

} // verus!
