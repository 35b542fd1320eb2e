//! Decoder for semi-structured CI workflow documents.
//!
//! A document arrives as a generic value tree (scalars, sequences,
//! mappings) produced by an external parser.  This crate resolves each
//! ambiguous field shape deterministically, applies declared defaults for
//! absent fields, and either produces a fully typed workflow model or a
//! precise decode error.

pub mod common;
pub mod error;
pub mod keyword;
pub mod record;
pub mod shape;
pub mod value;
pub mod workflow;
