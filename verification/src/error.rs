//! Structured decode failures.
//!
//! A decode error carries its kind, the path of mapping keys and sequence
//! indices from the document root down to the failing node, and the
//! failing node's source location when the parser supplied one.  Decoding
//! always stops at the first error; nothing is accumulated.

use vstd::prelude::*;

use crate::shape::{Shape, SpecShape};
use crate::value::KindName;

verus! {

/// One step of the path from the document root to a node.
#[derive(Debug, PartialEq)]
pub enum PathSeg {
    /// A mapping key.
    Key(String),
    /// A sequence index.
    Index(usize),
}

/// The ghost form of a path segment.
pub enum SpecSeg {
    Key(Seq<char>),
    Index(int),
}

impl View for PathSeg {
    type V = SpecSeg;

    open spec fn view(&self) -> SpecSeg {
        match self {
            PathSeg::Key(k) => SpecSeg::Key(k@),
            PathSeg::Index(i) => SpecSeg::Index(*i as int),
        }
    }
}

/// What went wrong, with the data a caller needs to report it.
#[derive(Debug, PartialEq)]
pub enum ErrorKind {
    /// A scalar accessor met a node of a different concrete kind.
    TypeMismatch { expected: KindName, found: KindName },
    /// A record or sequence decoder met an incompatible node kind.
    ShapeMismatch { expected: KindName, found: KindName },
    /// None of a union's candidate shapes accepted the node.
    NoMatchingShape { found: KindName, tried: Vec<Shape> },
    /// An enum keyword scalar matched no declared keyword.
    UnknownVariant { found: String, legal: Vec<String> },
    /// Under the strict policy, a mapping held an undeclared key.
    UnknownField { key: String },
    /// A field with no declared default was absent.
    MissingRequiredField { field: String },
}

/// The ghost form of an error kind.
pub enum SpecErrKind {
    TypeMismatch { expected: KindName, found: KindName },
    ShapeMismatch { expected: KindName, found: KindName },
    NoMatchingShape { found: KindName, tried: Seq<SpecShape> },
    UnknownVariant { found: Seq<char>, legal: Seq<Seq<char>> },
    UnknownField { key: Seq<char> },
    MissingRequiredField { field: Seq<char> },
}

impl View for ErrorKind {
    type V = SpecErrKind;

    open spec fn view(&self) -> SpecErrKind {
        match self {
            ErrorKind::TypeMismatch { expected, found } => SpecErrKind::TypeMismatch {
                expected: *expected,
                found: *found,
            },
            ErrorKind::ShapeMismatch { expected, found } => SpecErrKind::ShapeMismatch {
                expected: *expected,
                found: *found,
            },
            ErrorKind::NoMatchingShape { found, tried } => SpecErrKind::NoMatchingShape {
                found: *found,
                tried: tried@.map_values(|s: Shape| s@),
            },
            ErrorKind::UnknownVariant { found, legal } => SpecErrKind::UnknownVariant {
                found: found@,
                legal: legal@.map_values(|s: String| s@),
            },
            ErrorKind::UnknownField { key } => SpecErrKind::UnknownField { key: key@ },
            ErrorKind::MissingRequiredField { field } => SpecErrKind::MissingRequiredField {
                field: field@,
            },
        }
    }
}

/// A decode failure: kind, path from the root, source location if known.
#[derive(Debug, PartialEq)]
pub struct DecodeError {
    pub kind: ErrorKind,
    pub path: Vec<PathSeg>,
    pub loc: Option<u64>,
}

/// The ghost form of a decode failure.
pub struct SpecErr {
    pub kind: SpecErrKind,
    pub path: Seq<SpecSeg>,
    pub loc: Option<u64>,
}

impl View for DecodeError {
    type V = SpecErr;

    open spec fn view(&self) -> SpecErr {
        SpecErr { kind: self.kind@, path: self.path@.map_values(|s: PathSeg| s@), loc: self.loc }
    }
}

/// A fresh error at the failing node itself: empty path.
pub open spec fn spec_err(kind: SpecErrKind, loc: Option<u64>) -> SpecErr {
    SpecErr { kind, path: Seq::empty(), loc }
}

/// The same error one level up, behind mapping key `key`.
pub open spec fn spec_under_key(key: Seq<char>, e: SpecErr) -> SpecErr {
    SpecErr { kind: e.kind, path: seq![SpecSeg::Key(key)] + e.path, loc: e.loc }
}

/// The same error one level up, behind sequence index `i`.
pub open spec fn spec_under_index(i: int, e: SpecErr) -> SpecErr {
    SpecErr { kind: e.kind, path: seq![SpecSeg::Index(i)] + e.path, loc: e.loc }
}

/// The ghost form of a decode result: values stay as they are, errors go
/// to their ghost form.
pub open spec fn res_view<T>(r: Result<T, DecodeError>) -> Result<T, SpecErr> {
    match r {
        Result::Ok(v) => Result::Ok(v),
        Result::Err(e) => Result::Err(e@),
    }
}

impl DecodeError {
    /// Builds an error at the failing node itself.
    pub fn at(kind: ErrorKind, loc: Option<u64>) -> (e: DecodeError)
        ensures
            e@ == spec_err(kind@, loc),
    {
        let e = DecodeError { kind, path: Vec::new(), loc };
        proof {
            assert(e@.path =~= Seq::<SpecSeg>::empty());
        }
        e
    }

    /// Prefixes the path with the mapping key the failure sits under.
    pub fn under_key(self, key: &str) -> (e: DecodeError)
        ensures
            e@ == spec_under_key(key@, self@),
    {
        let mut path = self.path;
        path.insert(0, PathSeg::Key(key.to_owned()));
        let e = DecodeError { kind: self.kind, path, loc: self.loc };
        proof {
            assert(e@.path =~= seq![SpecSeg::Key(key@)] + self@.path);
        }
        e
    }

    /// Prefixes the path with the sequence index the failure sits under.
    pub fn under_index(self, i: usize) -> (e: DecodeError)
        ensures
            e@ == spec_under_index(i as int, self@),
    {
        let mut path = self.path;
        path.insert(0, PathSeg::Index(i));
        let e = DecodeError { kind: self.kind, path, loc: self.loc };
        proof {
            assert(e@.path =~= seq![SpecSeg::Index(i as int)] + self@.path);
        }
        e
    }
}

} // verus!
