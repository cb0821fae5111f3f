//! Quoting of identifiers and literals in constructed SQL. Every
//! user-supplied or catalog-derived string that is interpolated into a query
//! goes through one of these two helpers.

use vstd::prelude::*;

verus! {

/// The escaped body of a SQL string literal: every embedded single quote or
/// backslash is doubled.
pub open spec fn lit_escaped(s: Seq<char>) -> Seq<char>
    decreases s.len(),
{
    if s.len() == 0 {
        Seq::empty()
    } else {
        let head: Seq<char> = if s[0] == '\\' || s[0] == '\'' {
            seq![s[0], s[0]]
        } else {
            seq![s[0]]
        };
        head + lit_escaped(s.drop_first())
    }
}

/// The quoted form of a SQL string literal: wrapped in single quotes, with
/// an `E` prefix exactly when the literal holds a backslash.
pub open spec fn spec_quote_literal(s: Seq<char>) -> Seq<char> {
    if s.contains('\\') {
        seq!['E', '\''] + lit_escaped(s) + seq!['\'']
    } else {
        seq!['\''] + lit_escaped(s) + seq!['\'']
    }
}

/// What `pg_escape::quote_identifier` returns for an identifier: the
/// identifier itself when it is lower-case alphanumeric and no SQL keyword,
/// else a double-quoted form with embedded double quotes doubled. The
/// keyword table makes the full statement long, so the result only carries
/// this name.
pub uninterp spec fn spec_quote_ident(s: Seq<char>) -> Seq<char>;

/// Relies on `pg_escape::quote_literal`: the literal is always wrapped in a
/// pair of single quotes, embedded single quotes and backslashes are
/// repeated, and the whole is prefixed with `E` when a backslash occurs.
#[verifier::external_body]
pub fn quote_literal_sql(s: &str) -> (r: String)
    ensures
        r@ == spec_quote_literal(s@),
{
    pg_escape::quote_literal(s)
}

/// Relies on `pg_escape::quote_identifier`: the result is a fixed function
/// of the identifier alone.
#[verifier::external_body]
pub fn quote_identifier_sql(s: &str) -> (r: String)
    ensures
        r@ == spec_quote_ident(s@),
{
    pg_escape::quote_identifier(s).into_owned()
}

} // verus!
