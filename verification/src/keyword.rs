//! Keyword normalization: the coercion rule that folds an enum keyword
//! scalar onto a declared keyword.
//!
//! Folding is deterministic and locale-independent: an ASCII uppercase
//! letter folds to its lowercase form, and an underscore folds to a
//! hyphen.  Every declared keyword table in this crate is written in the
//! folded form (lowercase, hyphenated), so a document may spell a keyword
//! in either case and with either separator.

use vstd::prelude::*;

use crate::error::{res_view, spec_err, DecodeError, ErrorKind, SpecErr, SpecErrKind};
use crate::value::{KindName, Node, NodeKind};

verus! {

/// Whether document character `c` folds onto declared character `l`.
pub open spec fn fold_matches(c: char, l: char) -> bool {
    if c as u32 == 95 {
        // '_' folds to '-'
        l as u32 == 45
    } else if 65 <= c as u32 && c as u32 <= 90 {
        // 'A'..'Z' fold to 'a'..'z'
        l as u32 == c as u32 + 32
    } else {
        l as u32 == c as u32
    }
}

/// Whether the document scalar `s` folds, character by character, onto
/// the declared keyword `k`.
pub open spec fn keyword_folds_to(s: Seq<char>, k: Seq<char>) -> bool {
    &&& s.len() == k.len()
    &&& forall|i: int| 0 <= i < s.len() ==> #[trigger] fold_matches(s[i], k[i])
}

/// Decides whether one character of a document keyword folds onto one
/// character of a declared keyword.
pub fn fold_char_matches(c: char, l: char) -> (b: bool)
    ensures
        b == fold_matches(c, l),
{
    let cu: u32 = c as u32;
    let lu: u32 = l as u32;
    if cu == 95 {
        lu == 45
    } else if 65 <= cu && cu <= 90 {
        lu == cu + 32
    } else {
        lu == cu
    }
}

/// Decides whether the scalar `s` folds onto the declared keyword `k`.
pub fn keyword_matches(s: &str, k: &str) -> (b: bool)
    ensures
        b == keyword_folds_to(s@, k@),
{
    let n = s.unicode_len();
    let m = k.unicode_len();
    if n != m {
        return false;
    }
    let mut i: usize = 0;
    while i < n
        invariant
            n == s@.len(),
            n == k@.len(),
            i <= n,
            forall|j: int| 0 <= j < i ==> #[trigger] fold_matches(s@[j], k@[j]),
        decreases n - i,
    {
        let c = s.get_char(i);
        let l = k.get_char(i);
        if !fold_char_matches(c, l) {
            return false;
        }
        i = i + 1;
    }
    true
}

/// The ghost form of a keyword table: declared keywords with their
/// variants, in declared order.
pub open spec fn table_view<V>(table: Seq<(String, V)>) -> Seq<(Seq<char>, V)> {
    table.map_values(|p: (String, V)| (p.0@, p.1))
}

/// The declared keywords of a table, in declared order.
pub open spec fn table_keys<V>(table: Seq<(Seq<char>, V)>) -> Seq<Seq<char>> {
    table.map_values(|p: (Seq<char>, V)| p.0)
}

/// The variant of the first declared keyword the scalar folds onto, or
/// `None` when it folds onto none.
pub open spec fn spec_table_lookup<V>(s: Seq<char>, table: Seq<(Seq<char>, V)>) -> Option<V>
    decreases table.len(),
{
    if table.len() == 0 {
        Option::None
    } else if keyword_folds_to(s, table[0].0) {
        Option::Some(table[0].1)
    } else {
        spec_table_lookup(s, table.drop_first())
    }
}

/// Finds the variant of the first declared keyword that `s` folds onto.
pub fn table_lookup<V: Copy>(s: &str, table: &Vec<(String, V)>) -> (r: Option<V>)
    ensures
        r == spec_table_lookup(s@, table_view(table@)),
{
    let ghost tv = table_view(table@);
    let mut i: usize = 0;
    assert(tv.skip(0) =~= tv);
    while i < table.len()
        invariant
            i <= table@.len(),
            tv == table_view(table@),
            tv.len() == table@.len(),
            spec_table_lookup(s@, tv) == spec_table_lookup(s@, tv.skip(i as int)),
        decreases table@.len() - i,
    {
        assert(tv.skip(i as int)[0] == tv[i as int]);
        assert(tv[i as int] == (table@[i as int].0@, table@[i as int].1));
        if keyword_matches(s, table[i].0.as_str()) {
            return Option::Some(table[i].1);
        }
        assert(tv.skip(i as int).drop_first() =~= tv.skip(i as int + 1));
        i = i + 1;
    }
    assert(tv.skip(i as int) =~= Seq::<(Seq<char>, V)>::empty());
    Option::None
}

/// Clones the declared keywords of a table, for diagnostics.
pub fn table_legal_keys<V: Copy>(table: &Vec<(String, V)>) -> (r: Vec<String>)
    ensures
        r@.map_values(|s: String| s@) == table_keys(table_view(table@)),
{
    let mut r: Vec<String> = Vec::new();
    let mut i: usize = 0;
    while i < table.len()
        invariant
            i <= table@.len(),
            r@.len() == i,
            forall|j: int| 0 <= j < i ==> #[trigger] r@[j]@ == table@[j].0@,
        decreases table@.len() - i,
    {
        r.push(table[i].0.clone());
        i = i + 1;
    }
    proof {
        assert(r@.map_values(|s: String| s@) =~= table_keys(table_view(table@)));
    }
    r
}

/// The ghost form of an optional borrowed node.
pub open spec fn opt_node_view(o: Option<&Node>) -> Option<Node> {
    match o {
        Option::Some(n) => Option::Some(*n),
        Option::None => Option::None,
    }
}

/// The enum and default resolver.  An absent field always yields the
/// declared default without consulting the table; a present scalar must
/// be text and must fold onto a declared keyword, else it is rejected
/// naming the scalar and the legal keywords.
pub open spec fn spec_resolve_enum<V>(
    n_opt: Option<Node>,
    table: Seq<(Seq<char>, V)>,
    default: V,
) -> Result<V, SpecErr> {
    match n_opt {
        Option::None => Result::Ok(default),
        Option::Some(n) => match n.kind {
            NodeKind::Text(s) => match spec_table_lookup(s@, table) {
                Option::Some(v) => Result::Ok(v),
                Option::None => Result::Err(
                    spec_err(
                        SpecErrKind::UnknownVariant { found: s@, legal: table_keys(table) },
                        n.loc,
                    ),
                ),
            },
            _ => Result::Err(
                spec_err(
                    SpecErrKind::TypeMismatch {
                        expected: KindName::TextKind,
                        found: n.spec_kind_name(),
                    },
                    n.loc,
                ),
            ),
        },
    }
}

/// Resolves an optional enum keyword field against its declared table
/// and default.
pub fn resolve_enum<V: Copy>(n_opt: Option<&Node>, table: &Vec<(String, V)>, default: V) -> (r:
    Result<V, DecodeError>)
    ensures
        res_view(r) == spec_resolve_enum(opt_node_view(n_opt), table_view(table@), default),
{
    match n_opt {
        Option::None => Result::Ok(default),
        Option::Some(n) => match &n.kind {
            NodeKind::Text(s) => match table_lookup(s.as_str(), table) {
                Option::Some(v) => Result::Ok(v),
                Option::None => Result::Err(
                    DecodeError::at(
                        ErrorKind::UnknownVariant {
                            found: s.clone(),
                            legal: table_legal_keys(table),
                        },
                        n.loc,
                    ),
                ),
            },
            _ => Result::Err(
                DecodeError::at(
                    ErrorKind::TypeMismatch {
                        expected: KindName::TextKind,
                        found: n.kind_name(),
                    },
                    n.loc,
                ),
            ),
        },
    }
}

} // verus!
