//! The field decoder's shared parts: the unknown-key policy and the
//! check of a mapping's keys against a record's declared field set.
//!
//! Record decoders walk their declared fields: a present key is decoded
//! recursively, an absent one takes its declared default.  Keys that the
//! record does not declare are a policy matter: the strict policy rejects
//! the first such key in insertion order, the lenient policy ignores
//! them all.

use vstd::prelude::*;

use crate::error::{res_view, spec_err, DecodeError, ErrorKind, SpecErr, SpecErrKind};
use crate::value::Node;

verus! {

/// What to do with mapping keys that a record schema does not declare.
/// This is the only configuration the decoder has.
#[derive(Debug, Clone, Copy, PartialEq, Eq, Structural)]
pub enum UnknownFieldPolicy {
    Strict,
    Lenient,
}

impl Default for UnknownFieldPolicy {
    /// The default policy rejects unknown keys.
    fn default() -> (p: Self)
        ensures
            p == UnknownFieldPolicy::Strict,
    {
        UnknownFieldPolicy::Strict
    }
}

/// Whether `key` is one of the declared field names.
pub open spec fn key_allowed(key: Seq<char>, allowed: Seq<Seq<char>>) -> bool {
    exists|j: int| 0 <= j < allowed.len() && allowed[j] == key
}

/// The first key, in insertion order, that the schema does not declare.
pub open spec fn spec_first_unknown(entries: Seq<(String, Node)>, allowed: Seq<Seq<char>>) -> Option<
    Seq<char>,
>
    decreases entries.len(),
{
    if entries.len() == 0 {
        Option::None
    } else if !key_allowed(entries[0].0@, allowed) {
        Option::Some(entries[0].0@)
    } else {
        spec_first_unknown(entries.drop_first(), allowed)
    }
}

/// The unknown-key check: the lenient policy accepts everything, the
/// strict policy fails on the first undeclared key.
pub open spec fn spec_check_keys(
    entries: Seq<(String, Node)>,
    allowed: Seq<Seq<char>>,
    policy: UnknownFieldPolicy,
    loc: Option<u64>,
) -> Result<(), SpecErr> {
    if policy is Lenient {
        Result::Ok(())
    } else {
        match spec_first_unknown(entries, allowed) {
            Option::None => Result::Ok(()),
            Option::Some(k) => Result::Err(spec_err(SpecErrKind::UnknownField { key: k }, loc)),
        }
    }
}

/// Decides whether `key` is a declared field name.
fn key_in(key: &String, allowed: &Vec<String>) -> (b: bool)
    ensures
        b == key_allowed(key@, allowed@.map_values(|s: String| s@)),
{
    let ghost av = allowed@.map_values(|s: String| s@);
    let mut j: usize = 0;
    while j < allowed.len()
        invariant
            j <= allowed@.len(),
            av == allowed@.map_values(|s: String| s@),
            av.len() == allowed@.len(),
            forall|k: int| 0 <= k < j ==> av[k] != key@,
        decreases allowed@.len() - j,
    {
        assert(av[j as int] == allowed@[j as int]@);
        if allowed[j] == *key {
            return true;
        }
        j = j + 1;
    }
    false
}

/// Checks a mapping's keys against the declared field names under the
/// given policy.  `loc` is the mapping node's own location, used when an
/// unknown key is reported.
pub fn check_keys(
    entries: &Vec<(String, Node)>,
    allowed: &Vec<String>,
    policy: UnknownFieldPolicy,
    loc: Option<u64>,
) -> (r: Result<(), DecodeError>)
    ensures
        res_view(r) == spec_check_keys(
            entries@,
            allowed@.map_values(|s: String| s@),
            policy,
            loc,
        ),
{
    let ghost av = allowed@.map_values(|s: String| s@);
    if matches!(policy, UnknownFieldPolicy::Lenient) {
        return Result::Ok(());
    }
    let mut i: usize = 0;
    assert(entries@.skip(0) =~= entries@);
    while i < entries.len()
        invariant
            i <= entries@.len(),
            av == allowed@.map_values(|s: String| s@),
            policy is Strict,
            spec_first_unknown(entries@, av) == spec_first_unknown(entries@.skip(i as int), av),
        decreases entries@.len() - i,
    {
        assert(entries@.skip(i as int)[0] == entries@[i as int]);
        if !key_in(&entries[i].0, allowed) {
            return Result::Err(
                DecodeError::at(ErrorKind::UnknownField { key: entries[i].0.clone() }, loc),
            );
        }
        assert(entries@.skip(i as int).drop_first() =~= entries@.skip(i as int + 1));
        i = i + 1;
    }
    assert(entries@.skip(i as int) =~= Seq::<(String, Node)>::empty());
    Result::Ok(())
}

} // verus!
