//! The generic value tree: the already-parsed form of a document.
//!
//! A node is a scalar (null, boolean, number, text), a sequence of nodes,
//! or a mapping from text keys to nodes.  Numbers are carried as their
//! decimal text exactly as the external parser rendered them: the decoder
//! never does arithmetic on them, it only stringifies or rejects them.
//! Mappings keep insertion order, so diagnostics about unknown keys are
//! deterministic.

use vstd::prelude::*;

use crate::error::{spec_err, DecodeError, ErrorKind, SpecErrKind};

verus! {

/// One node of the value tree, together with an optional source location
/// (an opaque offset supplied by the external parser) used in diagnostics.
#[derive(Debug, PartialEq)]
pub struct Node {
    pub kind: NodeKind,
    pub loc: Option<u64>,
}

/// The concrete shape of a node.
#[derive(Debug, PartialEq)]
pub enum NodeKind {
    Null,
    Bool(bool),
    /// A numeric scalar, carried as its decimal text.
    Number(String),
    Text(String),
    Sequence(Vec<Node>),
    Mapping(Vec<(String, Node)>),
}

/// The name of a node's concrete kind, for diagnostics.
#[derive(Debug, Clone, Copy, PartialEq, Eq, Structural)]
pub enum KindName {
    NullKind,
    BoolKind,
    NumberKind,
    TextKind,
    SequenceKind,
    MappingKind,
}

impl Node {
    /// The kind name of this node.
    pub open spec fn spec_kind_name(self) -> KindName {
        match self.kind {
            NodeKind::Null => KindName::NullKind,
            NodeKind::Bool(_) => KindName::BoolKind,
            NodeKind::Number(_) => KindName::NumberKind,
            NodeKind::Text(_) => KindName::TextKind,
            NodeKind::Sequence(_) => KindName::SequenceKind,
            NodeKind::Mapping(_) => KindName::MappingKind,
        }
    }

    /// Reports the kind of this node.
    pub fn kind_name(&self) -> (k: KindName)
        ensures
            k == self.spec_kind_name(),
    {
        match &self.kind {
            NodeKind::Null => KindName::NullKind,
            NodeKind::Bool(_) => KindName::BoolKind,
            NodeKind::Number(_) => KindName::NumberKind,
            NodeKind::Text(_) => KindName::TextKind,
            NodeKind::Sequence(_) => KindName::SequenceKind,
            NodeKind::Mapping(_) => KindName::MappingKind,
        }
    }

    /// Builds a node with no source location.
    pub fn new(kind: NodeKind) -> (n: Node)
        ensures
            n == (Node { kind, loc: Option::<u64>::None }),
    {
        Node { kind, loc: Option::<u64>::None }
    }

    /// Typed accessor: the boolean this scalar holds, or a type
    /// mismatch naming both kinds.
    pub fn as_bool(&self) -> (r: Result<bool, DecodeError>)
        ensures
            match r {
                Result::Ok(b) => self.kind == NodeKind::Bool(b),
                Result::Err(e) => !(self.kind is Bool) && e@ == spec_err(
                    SpecErrKind::TypeMismatch {
                        expected: KindName::BoolKind,
                        found: self.spec_kind_name(),
                    },
                    self.loc,
                ),
            },
    {
        match &self.kind {
            NodeKind::Bool(b) => Result::Ok(*b),
            _ => Result::Err(
                DecodeError::at(
                    ErrorKind::TypeMismatch {
                        expected: KindName::BoolKind,
                        found: self.kind_name(),
                    },
                    self.loc,
                ),
            ),
        }
    }

    /// Typed accessor: the text this scalar holds, or a type mismatch
    /// naming both kinds.
    pub fn as_text(&self) -> (r: Result<&String, DecodeError>)
        ensures
            match r {
                Result::Ok(s) => self.kind == NodeKind::Text(*s),
                Result::Err(e) => !(self.kind is Text) && e@ == spec_err(
                    SpecErrKind::TypeMismatch {
                        expected: KindName::TextKind,
                        found: self.spec_kind_name(),
                    },
                    self.loc,
                ),
            },
    {
        match &self.kind {
            NodeKind::Text(s) => Result::Ok(s),
            _ => Result::Err(
                DecodeError::at(
                    ErrorKind::TypeMismatch {
                        expected: KindName::TextKind,
                        found: self.kind_name(),
                    },
                    self.loc,
                ),
            ),
        }
    }

    /// Typed accessor: the decimal text of the number this scalar
    /// holds, or a type mismatch naming both kinds.
    pub fn as_number_text(&self) -> (r: Result<&String, DecodeError>)
        ensures
            match r {
                Result::Ok(t) => self.kind == NodeKind::Number(*t),
                Result::Err(e) => !(self.kind is Number) && e@ == spec_err(
                    SpecErrKind::TypeMismatch {
                        expected: KindName::NumberKind,
                        found: self.spec_kind_name(),
                    },
                    self.loc,
                ),
            },
    {
        match &self.kind {
            NodeKind::Number(t) => Result::Ok(t),
            _ => Result::Err(
                DecodeError::at(
                    ErrorKind::TypeMismatch {
                        expected: KindName::NumberKind,
                        found: self.kind_name(),
                    },
                    self.loc,
                ),
            ),
        }
    }
}

/// The first value bound to `key` in an ordered list of mapping entries,
/// or `None` when the key is absent.
pub open spec fn spec_lookup(entries: Seq<(String, Node)>, key: Seq<char>) -> Option<Node>
    decreases entries.len(),
{
    if entries.len() == 0 {
        Option::None
    } else if entries[0].0@ == key {
        Option::Some(entries[0].1)
    } else {
        spec_lookup(entries.drop_first(), key)
    }
}

/// Looks a key up in a mapping's entry list, first binding wins.
pub fn lookup<'a>(entries: &'a Vec<(String, Node)>, key: &str) -> (r: Option<&'a Node>)
    ensures
        match r {
            Option::Some(n) => spec_lookup(entries@, key@) == Option::Some(*n),
            Option::None => spec_lookup(entries@, key@) is None,
        },
{
    let owned_key: String = key.to_owned();
    let mut i: usize = 0;
    assert(entries@.skip(0) =~= entries@);
    while i < entries.len()
        invariant
            i <= entries@.len(),
            owned_key@ == key@,
            spec_lookup(entries@, key@) == spec_lookup(entries@.skip(i as int), key@),
        decreases entries@.len() - i,
    {
        assert(entries@.skip(i as int)[0] == entries@[i as int]);
        if entries[i].0 == owned_key {
            return Option::Some(&entries[i].1);
        }
        assert(entries@.skip(i as int).drop_first() =~= entries@.skip(i as int + 1));
        i = i + 1;
    }
    assert(entries@.skip(i as int) =~= Seq::<(String, Node)>::empty());
    Option::None
}

} // verus!
