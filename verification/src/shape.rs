//! Shape matchers and the union resolver.
//!
//! A shape is a pure predicate on a node's concrete form.  A union type
//! declares its candidate shapes in precedence order; the resolver commits
//! to the first shape that accepts the node and never tries a later one,
//! so the declared order is part of the format itself.

use vstd::prelude::*;

use crate::value::{spec_lookup, Node, NodeKind};

verus! {

/// A candidate shape of a union type.
#[derive(Debug, PartialEq)]
pub enum Shape {
    BoolScalar,
    NumberScalar,
    TextScalar,
    /// A text scalar recognized as an unevaluated expression placeholder.
    ExprText,
    SequenceShape,
    MappingShape,
    /// A mapping that binds the given key.
    MappingWithKey(String),
}

/// The ghost form of a shape.
pub enum SpecShape {
    BoolScalar,
    NumberScalar,
    TextScalar,
    ExprText,
    SequenceShape,
    MappingShape,
    MappingWithKey(Seq<char>),
}

impl View for Shape {
    type V = SpecShape;

    open spec fn view(&self) -> SpecShape {
        match self {
            Shape::BoolScalar => SpecShape::BoolScalar,
            Shape::NumberScalar => SpecShape::NumberScalar,
            Shape::TextScalar => SpecShape::TextScalar,
            Shape::ExprText => SpecShape::ExprText,
            Shape::SequenceShape => SpecShape::SequenceShape,
            Shape::MappingShape => SpecShape::MappingShape,
            Shape::MappingWithKey(k) => SpecShape::MappingWithKey(k@),
        }
    }
}

/// Whether a text scalar is an unevaluated expression placeholder:
/// at least `${{` and `}}` around a (possibly empty) body.
pub open spec fn spec_is_expr(s: Seq<char>) -> bool {
    &&& s.len() >= 5
    &&& s[0] == '$'
    &&& s[1] == '{'
    &&& s[2] == '{'
    &&& s[s.len() - 2] == '}'
    &&& s[s.len() - 1] == '}'
}

/// Recognizes an expression placeholder string.
pub fn is_expr_text(s: &str) -> (b: bool)
    ensures
        b == spec_is_expr(s@),
{
    let n = s.unicode_len();
    if n < 5 {
        return false;
    }
    s.get_char(0) == '$' && s.get_char(1) == '{' && s.get_char(2) == '{' && s.get_char(n - 2)
        == '}' && s.get_char(n - 1) == '}'
}

/// Whether shape `sh` accepts node `n`.  Matching is pure and never
/// coerces across kinds: a number never matches a text shape.
pub open spec fn shape_matches(sh: SpecShape, n: Node) -> bool {
    match sh {
        SpecShape::BoolScalar => n.kind is Bool,
        SpecShape::NumberScalar => n.kind is Number,
        SpecShape::TextScalar => n.kind is Text,
        SpecShape::ExprText => n.kind is Text && spec_is_expr(n.kind->Text_0@),
        SpecShape::SequenceShape => n.kind is Sequence,
        SpecShape::MappingShape => n.kind is Mapping,
        SpecShape::MappingWithKey(k) => n.kind is Mapping && spec_lookup(
            n.kind->Mapping_0@,
            k,
        ) is Some,
    }
}

/// Decides whether shape `sh` accepts node `n`.
pub fn matches(sh: &Shape, n: &Node) -> (b: bool)
    ensures
        b == shape_matches(sh@, *n),
{
    match sh {
        Shape::BoolScalar => matches!(&n.kind, NodeKind::Bool(_)),
        Shape::NumberScalar => matches!(&n.kind, NodeKind::Number(_)),
        Shape::TextScalar => matches!(&n.kind, NodeKind::Text(_)),
        Shape::ExprText => match &n.kind {
            NodeKind::Text(s) => is_expr_text(s.as_str()),
            _ => false,
        },
        Shape::SequenceShape => matches!(&n.kind, NodeKind::Sequence(_)),
        Shape::MappingShape => matches!(&n.kind, NodeKind::Mapping(_)),
        Shape::MappingWithKey(k) => match &n.kind {
            NodeKind::Mapping(entries) => crate::value::lookup(entries, k.as_str()).is_some(),
            _ => false,
        },
    }
}

/// The index of the first candidate shape that accepts `n`, or `None`
/// when no candidate does.
pub open spec fn spec_resolve(shapes: Seq<SpecShape>, n: Node) -> Option<int>
    decreases shapes.len(),
{
    if shapes.len() == 0 {
        Option::None
    } else if shape_matches(shapes[0], n) {
        Option::Some(0)
    } else {
        match spec_resolve(shapes.drop_first(), n) {
            Option::Some(i) => Option::Some(i + 1),
            Option::None => Option::None,
        }
    }
}

/// The first-match law of the union resolver: the winning candidate
/// accepts the node, every earlier candidate rejects it, and when no
/// index comes back, no candidate accepts it.  In particular, of two
/// candidates that both accept a node, the earlier-declared one wins.
pub proof fn lemma_resolve_first_match(shapes: Seq<SpecShape>, n: Node)
    ensures
        match spec_resolve(shapes, n) {
            Option::Some(i) => {
                &&& 0 <= i < shapes.len()
                &&& shape_matches(shapes[i], n)
                &&& forall|k: int| 0 <= k < i ==> !shape_matches(#[trigger] shapes[k], n)
            },
            Option::None => forall|k: int|
                0 <= k < shapes.len() ==> !shape_matches(#[trigger] shapes[k], n),
        },
    decreases shapes.len(),
{
    if shapes.len() > 0 {
        lemma_resolve_first_match(shapes.drop_first(), n);
        assert forall|k: int| 1 <= k < shapes.len() implies shapes.drop_first()[k - 1] == shapes[k]
        by {}
    }
}

/// Tries the candidates in declared order and returns the index of the
/// first whose matcher accepts the node.
pub fn resolve_first(candidates: &Vec<Shape>, n: &Node) -> (r: Option<usize>)
    ensures
        match r {
            Option::Some(i) => spec_resolve(candidates@.map_values(|s: Shape| s@), *n)
                == Option::Some(i as int),
            Option::None => spec_resolve(candidates@.map_values(|s: Shape| s@), *n) is None,
        },
{
    let ghost shapes = candidates@.map_values(|s: Shape| s@);
    let mut i: usize = 0;
    while i < candidates.len()
        invariant
            i <= candidates@.len(),
            shapes == candidates@.map_values(|s: Shape| s@),
            shapes.len() == candidates@.len(),
            forall|k: int| 0 <= k < i ==> !shape_matches(#[trigger] shapes[k], *n),
        decreases candidates@.len() - i,
    {
        if matches(&candidates[i], n) {
            proof {
                lemma_resolve_first_match(shapes, *n);
                lemma_resolve_bound(shapes, *n, i as int);
            }
            return Option::Some(i);
        }
        i = i + 1;
    }
    proof {
        lemma_resolve_first_match(shapes, *n);
    }
    Option::None
}

/// If `i` accepts and everything before `i` rejects, the resolver
/// returns exactly `i`.
proof fn lemma_resolve_bound(shapes: Seq<SpecShape>, n: Node, i: int)
    requires
        0 <= i < shapes.len(),
        shape_matches(shapes[i], n),
        forall|k: int| 0 <= k < i ==> !shape_matches(#[trigger] shapes[k], n),
    ensures
        spec_resolve(shapes, n) == Option::Some(i),
    decreases shapes.len(),
{
    if i > 0 {
        assert forall|k: int| 0 <= k < i - 1 implies !shape_matches(
            #[trigger] shapes.drop_first()[k],
            n,
        ) by {
            assert(shapes.drop_first()[k] == shapes[k + 1]);
        }
        assert(shapes.drop_first()[i - 1] == shapes[i]);
        lemma_resolve_bound(shapes.drop_first(), n, i - 1);
    }
}

} // verus!
