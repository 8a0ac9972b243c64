//! The section-heading element: construction from an argument list,
//! field introspection, its default show behaviour, and the finalize
//! defaults derived from its nesting level.

use vstd::prelude::*;

use crate::content::{node_wf, ContentNode, NodeData, NodeModel, RecipeId, unguard_model};
use crate::realize::StyledContent;
use crate::styles::{map_lookup, EntryModel, Strength, StyleKey, StyleMap};
use crate::value::{Em, Value, ValueModel};

verus! {

/// A constructor argument list, as an external evaluator supplies it:
/// positional values followed by named key/value pairs.
#[derive(Debug)]
pub struct Args {
    pub positional: Vec<Value>,
    pub named: Vec<(String, Value)>,
}

/// The mathematical model of an argument list.
pub struct ArgsModel {
    pub positional: Seq<ValueModel>,
    pub named: Seq<(Seq<char>, ValueModel)>,
}

impl View for Args {
    type V = ArgsModel;

    open spec fn view(&self) -> ArgsModel {
        ArgsModel {
            positional: self.positional@.map_values(|v: Value| v@),
            named: self.named@.map_values(|p: (String, Value)| (p.0@, p.1@)),
        }
    }
}

/// The first named argument called `name`.
pub open spec fn named_lookup(named: Seq<(Seq<char>, ValueModel)>, name: Seq<char>) -> Option<
    ValueModel,
>
    decreases named.len(),
{
    if named.len() == 0 {
        Option::None
    } else if named[0].0 == name {
        Option::Some(named[0].1)
    } else {
        named_lookup(named.drop_first(), name)
    }
}

proof fn lemma_named_skip(named: Seq<(Seq<char>, ValueModel)>, name: Seq<char>, i: int)
    requires
        0 <= i <= named.len(),
        forall|j: int| 0 <= j < i ==> (#[trigger] named[j]).0 != name,
    ensures
        named_lookup(named, name) == named_lookup(named.skip(i), name),
    decreases i,
{
    if i > 0 {
        assert(named.drop_first() =~= named.skip(1));
        lemma_named_skip(named.skip(1), name, i - 1);
        assert(named.skip(1).skip(i - 1) =~= named.skip(i));
    } else {
        assert(named.skip(0) =~= named);
    }
}

/// A construction failure, reported as a compile diagnostic at the
/// constructing call site.
#[derive(Debug)]
pub enum ConstructError {
    /// A required argument is absent.
    MissingArgument(String),
    /// A supplied argument has the wrong shape.
    TypeMismatch { name: String, expected: String, got: String },
    /// A supplied argument breaks a field invariant, such as a
    /// non-positive nesting depth.
    InvariantViolation(String),
}

/// The mathematical model of a construction failure.
pub enum ConstructErrorModel {
    MissingArgument(Seq<char>),
    TypeMismatch { name: Seq<char>, expected: Seq<char>, got: Seq<char> },
    InvariantViolation(Seq<char>),
}

impl View for ConstructError {
    type V = ConstructErrorModel;

    open spec fn view(&self) -> ConstructErrorModel {
        match self {
            ConstructError::MissingArgument(n) => ConstructErrorModel::MissingArgument(n@),
            ConstructError::TypeMismatch { name, expected, got } => (ConstructErrorModel::TypeMismatch {
                name: name@,
                expected: expected@,
                got: got@,
            }),
            ConstructError::InvariantViolation(n) => ConstructErrorModel::InvariantViolation(n@),
        }
    }
}

/// The name a value's shape goes by in diagnostics.
pub open spec fn shape_name_model(v: ValueModel) -> Seq<char> {
    match v {
        ValueModel::Int(_) => "integer"@,
        ValueModel::Size(_) => "size"@,
        ValueModel::Weight(_) => "weight"@,
        ValueModel::Content(_) => "content"@,
    }
}

/// The name a value's shape goes by in diagnostics.
pub fn shape_name(v: &Value) -> (r: String)
    ensures
        r@ == shape_name_model(v@),
{
    match v {
        Value::Int(_) => "integer".to_owned(),
        Value::Size(_) => "size".to_owned(),
        Value::Weight(_) => "weight".to_owned(),
        Value::Content(_) => "content".to_owned(),
    }
}

impl Args {
    /// The next (first) positional argument, required under `name`.
    pub fn expect(&self, name: &str) -> (r: Result<Value, ConstructError>)
        ensures
            self@.positional.len() == 0 ==> (r matches Result::Err(e) && e@
                == ConstructErrorModel::MissingArgument(name@)),
            self@.positional.len() > 0 ==> (r matches Result::Ok(v) && v@
                == self@.positional[0]),
    {
        if self.positional.len() == 0 {
            Result::Err(ConstructError::MissingArgument(name.to_owned()))
        } else {
            Result::Ok(self.positional[0].duplicate())
        }
    }

    /// The named argument `name`, if one was supplied.
    pub fn named(&self, name: &str) -> (r: Option<Value>)
        ensures
            (match (r, named_lookup(self@.named, name@)) {
                (Option::None, Option::None) => true,
                (Option::Some(v), Option::Some(mv)) => v@ == mv,
                _ => false,
            }),
    {
        let key = name.to_owned();
        let mut i: usize = 0;
        while i < self.named.len()
            invariant
                0 <= i <= self.named.len(),
                self@.named.len() == self.named.len(),
                key@ == name@,
                forall|j: int| 0 <= j < i ==> (#[trigger] self@.named[j]).0 != name@,
            decreases self.named.len() - i,
        {
            if self.named[i].0 == key {
                proof {
                    lemma_named_skip(self@.named, name@, i as int);
                    assert(self@.named.skip(i as int)[0] == self@.named[i as int]);
                }
                return Option::Some(self.named[i].1.duplicate());
            }
            i += 1;
        }
        proof {
            lemma_named_skip(self@.named, name@, self@.named.len() as int);
            assert(self@.named.skip(self@.named.len() as int) =~= Seq::<(
                Seq<char>,
                ValueModel,
            )>::empty());
        }
        Option::None
    }
}

/// A section heading: its nesting level (one-based) and its contents.
#[derive(Debug)]
pub struct HeadingNode {
    /// The logical nesting depth of the section, starting from one.  In
    /// the default style this controls the text size of the heading.
    pub level: i64,
    /// The heading's contents.
    pub body: ContentNode,
}

/// The packed form of a heading: a heading node carrying its body, with
/// no guards yet.
pub open spec fn heading_node_model(level: i64, body: NodeModel) -> NodeModel {
    NodeModel {
        data: NodeData::Heading { level },
        body: seq![body],
        guards: Set::empty(),
    }
}

/// What constructing a heading from an argument list yields: the `body`
/// argument is required content, `level` is an optional positive integer
/// defaulting to 1, and each violation is reported as the matching error.
pub open spec fn construct_model(args: ArgsModel) -> Result<NodeModel, ConstructErrorModel> {
    if args.positional.len() == 0 {
        Result::Err(ConstructErrorModel::MissingArgument("body"@))
    } else {
        match args.positional[0] {
            ValueModel::Content(body) => match named_lookup(args.named, "level"@) {
                Option::None => Result::Ok(heading_node_model(1, body)),
                Option::Some(ValueModel::Int(l)) => if l >= 1 {
                    Result::Ok(heading_node_model(l, body))
                } else {
                    Result::Err(ConstructErrorModel::InvariantViolation("level"@))
                },
                Option::Some(v) => Result::Err(
                    (ConstructErrorModel::TypeMismatch {
                        name: "level"@,
                        expected: "integer"@,
                        got: shape_name_model(v),
                    }),
                ),
            },
            v => Result::Err(
                (ConstructErrorModel::TypeMismatch {
                    name: "body"@,
                    expected: "content"@,
                    got: shape_name_model(v),
                }),
            ),
        }
    }
}

/// What `field` returns: the stored value for a known field name, nothing
/// for an unknown one.
pub open spec fn heading_field_model(level: i64, body: NodeModel, name: Seq<char>) -> Option<
    ValueModel,
> {
    if name == "level"@ {
        Option::Some(ValueModel::Int(level))
    } else if name == "body"@ {
        Option::Some(ValueModel::Content(body))
    } else {
        Option::None
    }
}

/// The default text size for a heading of the given level, per the
/// defaults table: 1.4em, 1.2em, then 1.0em from level 3 on.
pub open spec fn heading_size(level: i64) -> Em {
    if level == 1 {
        Em { hundredths: 140 }
    } else if level == 2 {
        Em { hundredths: 120 }
    } else {
        Em { hundredths: 100 }
    }
}

/// The default space above a heading: 1.8em for level 1, else 1.44em.
pub open spec fn heading_above(level: i64) -> Em {
    if level == 1 {
        Em { hundredths: 180 }
    } else {
        Em { hundredths: 144 }
    }
}

/// The finalize overlay of a heading, keyed by its level: weak size,
/// weight and above-space defaults, and a strong 0.66em below-space.
pub open spec fn heading_overlay_lookup(level: i64, k: StyleKey) -> Option<EntryModel> {
    match k {
        StyleKey::TextSize => Option::Some(
            (EntryModel {
                key: k,
                value: ValueModel::Size(heading_size(level)),
                strength: Strength::Weak,
            }),
        ),
        StyleKey::TextWeight => Option::Some(
            (EntryModel { key: k, value: ValueModel::Weight(700), strength: Strength::Weak }),
        ),
        StyleKey::AboveSpace => Option::Some(
            (EntryModel {
                key: k,
                value: ValueModel::Size(heading_above(level)),
                strength: Strength::Weak,
            }),
        ),
        StyleKey::BelowSpace => Option::Some(
            (EntryModel {
                key: k,
                value: ValueModel::Size((Em { hundredths: 66 })),
                strength: Strength::Strong,
            }),
        ),
    }
}

/// The finalize overlay map for a heading of the given level.
pub fn heading_overlay(level: i64) -> (r: StyleMap)
    ensures
        forall|k: StyleKey| map_lookup(r@, k) == heading_overlay_lookup(level, k),
{
    let size = if level == 1 {
        Em::new(140)
    } else if level == 2 {
        Em::new(120)
    } else {
        Em::new(100)
    };
    let above = if level == 1 {
        Em::new(180)
    } else {
        Em::new(144)
    };
    let mut map = StyleMap::new();
    map.set(StyleKey::TextSize, Value::Size(size), Strength::Weak);
    map.set(StyleKey::TextWeight, Value::Weight(700), Strength::Weak);
    map.set(StyleKey::AboveSpace, Value::Size(above), Strength::Weak);
    map.set(StyleKey::BelowSpace, Value::Size(Em::new(66)), Strength::Strong);
    map
}

/// Law — validation happens at construction: whenever construction
/// succeeds, the packed heading is a valid node (its level is positive and
/// it carries its body), provided the supplied body content was itself
/// valid.  Range violations never reach later stages.
pub proof fn lemma_construct_establishes_validity(args: ArgsModel)
    ensures
        (match construct_model(args) {
            Result::Ok(n) => (args.positional.len() > 0 && match args.positional[0] {
                ValueModel::Content(b) => node_wf(b),
                _ => false,
            }) ==> node_wf(n),
            Result::Err(_) => true,
        }),
{
    if construct_model(args) is Ok && args.positional.len() > 0 {
        match args.positional[0] {
            ValueModel::Content(b) => {
                if node_wf(b) {
                    let n = construct_model(args)->Ok_0;
                    assert(n.body[0] == b);
                    assert(node_wf(n));
                }
            },
            _ => {},
        }
    }
}

impl HeadingNode {
    /// Constructs a heading from an argument list and packs it into a
    /// content node, per `construct_model`.
    pub fn construct(args: &Args) -> (r: Result<ContentNode, ConstructError>)
        ensures
            (match (r, construct_model(args@)) {
                (Result::Ok(n), Result::Ok(m)) => n@ == m,
                (Result::Err(e), Result::Err(em)) => e@ == em,
                _ => false,
            }),
    {
        let body_val = match args.expect("body") {
            Result::Ok(v) => v,
            Result::Err(e) => {
                return Result::Err(e);
            },
        };
        let body = match body_val {
            Value::Content(b) => *b,
            v => {
                return Result::Err(
                    ConstructError::TypeMismatch {
                        name: "body".to_owned(),
                        expected: "content".to_owned(),
                        got: shape_name(&v),
                    },
                );
            },
        };
        let level: i64 = match args.named("level") {
            Option::None => 1,
            Option::Some(Value::Int(l)) => {
                if l < 1 {
                    return Result::Err(ConstructError::InvariantViolation("level".to_owned()));
                }
                l
            },
            Option::Some(v) => {
                return Result::Err(
                    ConstructError::TypeMismatch {
                        name: "level".to_owned(),
                        expected: "integer".to_owned(),
                        got: shape_name(&v),
                    },
                );
            },
        };
        let h = HeadingNode { level, body };
        Result::Ok(h.pack())
    }

    /// Packs this heading into a content node with an empty guard set.
    pub fn pack(&self) -> (r: ContentNode)
        ensures
            r@ == heading_node_model(self.level, self.body@),
    {
        let r = ContentNode {
            data: NodeData::Heading { level: self.level },
            body: Option::Some(Box::new(self.body.duplicate())),
            guards: Vec::new(),
        };
        proof {
            assert(r@.guards =~= Set::<RecipeId>::empty());
            assert(r@ =~~= heading_node_model(self.level, self.body@));
        }
        r
    }

    /// Reads a heading back out of a content node.
    pub fn unpack(node: &ContentNode) -> (r: Option<HeadingNode>)
        ensures
            (match r {
                Option::Some(h) => node@.data == (NodeData::Heading { level: h.level })
                    && node@.body.len() == 1 && h.body@ == node@.body[0],
                Option::None => !(node@.data is Heading) || node@.body.len() == 0,
            }),
    {
        match node.data {
            NodeData::Heading { level } => match &node.body {
                Option::Some(b) => Option::Some(HeadingNode { level, body: b.duplicate() }),
                Option::None => Option::None,
            },
            _ => Option::None,
        }
    }

    /// Pure field access for introspection: the stored value under a known
    /// name, nothing under an unknown one, never any recomputation.
    pub fn field(&self, name: &str) -> (r: Option<Value>)
        ensures
            (match (r, heading_field_model(self.level, self.body@, name@)) {
                (Option::None, Option::None) => true,
                (Option::Some(v), Option::Some(mv)) => v@ == mv,
                _ => false,
            }),
    {
        let key = name.to_owned();
        if key == "level".to_owned() {
            Option::Some(Value::Int(self.level))
        } else if key == "body".to_owned() {
            Option::Some(Value::Content(Box::new(self.body.duplicate())))
        } else {
            Option::None
        }
    }

    /// The unguarding step for a heading: the packed result keeps the
    /// heading's fields while its body sheds the guard `id`.
    pub fn unguard_parts(&self, id: RecipeId) -> (r: ContentNode)
        ensures
            r@ == heading_node_model(self.level, unguard_model(self.body@, id)),
    {
        let h = HeadingNode { level: self.level, body: self.body.unguard(id) };
        h.pack()
    }

    /// The heading's built-in show behaviour: wrap the body in a generic
    /// block container.  It cannot fail.
    pub fn show(&self) -> (r: ContentNode)
        ensures
            r@ == (NodeModel {
                data: NodeData::Block,
                body: seq![self.body@],
                guards: Set::empty(),
            }),
    {
        let r = ContentNode {
            data: NodeData::Block,
            body: Option::Some(Box::new(self.body.duplicate())),
            guards: Vec::new(),
        };
        proof {
            assert(r@.guards =~= Set::<RecipeId>::empty());
            assert(r@ =~~= (NodeModel {
                data: NodeData::Block,
                body: seq![self.body@],
                guards: Set::empty(),
            }));
        }
        r
    }

    /// The finalize step for a heading: wraps the realized content with
    /// the defaults overlay derived from this heading's own level.
    pub fn finalize(&self, realized: ContentNode) -> (r: StyledContent)
        ensures
            r.content@ == realized@,
            forall|k: StyleKey| map_lookup(r.styles@, k) == heading_overlay_lookup(self.level, k),
    {
        StyledContent { content: realized, styles: heading_overlay(self.level) }
    }
}

} // verus!
