//! Lookup-key selection: parsing the candidate-index rows of the catalog
//! query, and picking the cheapest safe unique identifier for a row — the
//! primary key first, then the alphabetically first unique index whose
//! columns all lie in the published column set.

use vstd::prelude::*;
use vstd::string::*;

use crate::table::ColumnSchema;
use crate::table::LookupKey;
use crate::text::{seq_char_lt, str_eq, str_lt};

verus! {

/// ASCII whitespace as the catalog array parsing strips it.
pub open spec fn is_space(c: char) -> bool {
    c == ' ' || c == '\t' || c == '\n' || c == '\r'
}

pub open spec fn trim_front_spaces(t: Seq<char>) -> Seq<char>
    decreases t.len(),
{
    if t.len() > 0 && is_space(t[0]) {
        trim_front_spaces(t.drop_first())
    } else {
        t
    }
}

pub open spec fn trim_back_spaces(t: Seq<char>) -> Seq<char>
    decreases t.len(),
{
    if t.len() > 0 && is_space(t.last()) {
        trim_back_spaces(t.drop_last())
    } else {
        t
    }
}

/// A piece of the array literal with surrounding whitespace removed.
pub open spec fn spec_trim(t: Seq<char>) -> Seq<char> {
    trim_back_spaces(trim_front_spaces(t))
}

pub open spec fn trim_front_char(t: Seq<char>, c: char) -> Seq<char>
    decreases t.len(),
{
    if t.len() > 0 && t[0] == c {
        trim_front_char(t.drop_first(), c)
    } else {
        t
    }
}

pub open spec fn trim_back_char(t: Seq<char>, c: char) -> Seq<char>
    decreases t.len(),
{
    if t.len() > 0 && t.last() == c {
        trim_back_char(t.drop_last(), c)
    } else {
        t
    }
}

/// A sequence with every leading or trailing `c` removed.
pub open spec fn trim_char(t: Seq<char>, c: char) -> Seq<char> {
    trim_back_char(trim_front_char(t, c), c)
}

/// The pieces of a sequence split at every comma. Splitting the empty
/// sequence gives one empty piece.
pub open spec fn spec_split_commas(t: Seq<char>) -> Seq<Seq<char>>
    decreases t.len(),
{
    if t.len() == 0 {
        seq![Seq::<char>::empty()]
    } else if t[0] == ',' {
        seq![Seq::<char>::empty()] + spec_split_commas(t.drop_first())
    } else {
        let rest = spec_split_commas(t.drop_first());
        seq![seq![t[0]] + rest[0]] + rest.drop_first()
    }
}

/// How the catalog's text form of a name array reads: braces trimmed, then
/// split at commas, each piece trimmed of whitespace.
pub open spec fn spec_name_array(t: Seq<char>) -> Seq<Seq<char>> {
    spec_split_commas(trim_char(trim_char(t, '{'), '}')).map_values(|seg: Seq<char>| spec_trim(seg))
}

pub proof fn lemma_split_commas_len(t: Seq<char>)
    ensures
        spec_split_commas(t).len() >= 1,
    decreases t.len(),
{
    if t.len() > 0 {
        lemma_split_commas_len(t.drop_first());
    }
}

/// Splitting off everything before the first comma.
pub proof fn lemma_split_at_first_comma(t: Seq<char>, i: int)
    requires
        0 <= i < t.len(),
        t[i] == ',',
        forall|j: int| 0 <= j < i ==> t[j] != ',',
    ensures
        spec_split_commas(t) == seq![t.subrange(0, i)] + spec_split_commas(
            t.skip(i + 1),
        ),
    decreases i,
{
    lemma_split_commas_len(t.drop_first());
    if i == 0 {
        assert(t.subrange(0, 0) =~= Seq::<char>::empty());
        assert(t.skip(1) =~= t.drop_first());
    } else {
        lemma_split_at_first_comma(t.drop_first(), i - 1);
        let rest = spec_split_commas(t.drop_first());
        assert(t.drop_first().subrange(0, i - 1) =~= t.subrange(1, i));
        assert(t.drop_first().skip(i) =~= t.skip(i + 1));
        assert(seq![t[0]] + rest[0] =~= t.subrange(0, i));
        assert(spec_split_commas(t) =~= seq![t.subrange(0, i)] + spec_split_commas(t.skip(i + 1)));
    }
}

/// A sequence without commas is a single piece.
pub proof fn lemma_split_no_comma(t: Seq<char>)
    requires
        forall|j: int| 0 <= j < t.len() ==> t[j] != ',',
    ensures
        spec_split_commas(t) == seq![t],
    decreases t.len(),
{
    if t.len() > 0 {
        lemma_split_no_comma(t.drop_first());
        assert(seq![t[0]] + t.drop_first() =~= t);
        assert(spec_split_commas(t) =~~= seq![t]);
    } else {
        assert(t =~= Seq::<char>::empty());
        assert(spec_split_commas(t) =~~= seq![t]);
    }
}

pub proof fn lemma_trim_front_char_skip(t: Seq<char>, c: char, k: int)
    requires
        0 <= k <= t.len(),
        forall|j: int| 0 <= j < k ==> t[j] == c,
        k == t.len() || t[k] != c,
    ensures
        trim_front_char(t, c) == t.skip(k),
    decreases k,
{
    if k == 0 {
        assert(t.skip(0) =~= t);
    } else {
        lemma_trim_front_char_skip(t.drop_first(), c, k - 1);
        assert(t.drop_first().skip(k - 1) =~= t.skip(k));
    }
}

pub proof fn lemma_trim_back_char_take(t: Seq<char>, c: char, k: int)
    requires
        0 <= k <= t.len(),
        forall|j: int| k <= j < t.len() ==> t[j] == c,
        k == 0 || t[k - 1] != c,
    ensures
        trim_back_char(t, c) == t.take(k),
    decreases t.len() - k,
{
    if k == t.len() {
        assert(t.take(k) =~= t);
    } else {
        lemma_trim_back_char_take(t.drop_last(), c, k);
        assert(t.drop_last().take(k) =~= t.take(k));
    }
}

pub proof fn lemma_trim_front_spaces_skip(t: Seq<char>, k: int)
    requires
        0 <= k <= t.len(),
        forall|j: int| 0 <= j < k ==> is_space(#[trigger] t[j]),
        k == t.len() || !is_space(t[k]),
    ensures
        trim_front_spaces(t) == t.skip(k),
    decreases k,
{
    if k == 0 {
        assert(t.skip(0) =~= t);
    } else {
        lemma_trim_front_spaces_skip(t.drop_first(), k - 1);
        assert(t.drop_first().skip(k - 1) =~= t.skip(k));
    }
}

pub proof fn lemma_trim_back_spaces_take(t: Seq<char>, k: int)
    requires
        0 <= k <= t.len(),
        forall|j: int| k <= j < t.len() ==> is_space(#[trigger] t[j]),
        k == 0 || !is_space(t[k - 1]),
    ensures
        trim_back_spaces(t) == t.take(k),
    decreases t.len() - k,
{
    if k == t.len() {
        assert(t.take(k) =~= t);
    } else {
        lemma_trim_back_spaces_take(t.drop_last(), k);
        assert(t.drop_last().take(k) =~= t.take(k));
    }
}

/// Decides `is_space`.
fn is_space_char(c: char) -> (r: bool)
    ensures
        r == is_space(c),
{
    c == ' ' || c == '\t' || c == '\n' || c == '\r'
}

/// Strips leading and trailing whitespace.
pub fn trim_spaces(s: &str) -> (r: String)
    ensures
        r@ == spec_trim(s@),
{
    let n = s.unicode_len();
    let mut i: usize = 0;
    while i < n && is_space_char(s.get_char(i))
        invariant
            0 <= i <= n,
            n == s@.len(),
            forall|j: int| 0 <= j < i ==> is_space(#[trigger] s@[j]),
        decreases n - i,
    {
        i += 1;
    }
    proof {
        lemma_trim_front_spaces_skip(s@, i as int);
    }
    let mut j: usize = n;
    while j > i && is_space_char(s.get_char(j - 1))
        invariant
            i <= j <= n,
            n == s@.len(),
            forall|k: int| 0 <= k < i ==> is_space(#[trigger] s@[k]),
            forall|k: int| j <= k < n ==> is_space(#[trigger] s@[k]),
        decreases j,
    {
        j -= 1;
    }
    let piece = s.substring_char(i, j);
    proof {
        let front = s@.skip(i as int);
        if j == i {
            // Everything from `i` on is whitespace.
            assert(forall|k: int| 0 <= k < front.len() ==> is_space(#[trigger] front[k]));
            lemma_trim_back_spaces_take(front, 0);
        } else {
            assert(forall|k: int|
                j - i <= k < front.len() ==> is_space(#[trigger] front[k]));
            assert(front[j - i - 1] == s@[j - 1]);
            lemma_trim_back_spaces_take(front, j - i);
        }
        assert(front.take(j - i) =~= s@.subrange(i as int, j as int));
    }
    String::from_str(piece)
}

/// The split pieces, each trimmed of whitespace.
pub open spec fn trimmed_pieces(t: Seq<char>) -> Seq<Seq<char>> {
    spec_split_commas(t).map_values(|seg: Seq<char>| spec_trim(seg))
}

pub proof fn lemma_trimmed_pieces_step(t: Seq<char>, i: int)
    requires
        0 <= i < t.len(),
        t[i] == ',',
        forall|j: int| 0 <= j < i ==> t[j] != ',',
    ensures
        trimmed_pieces(t) == seq![spec_trim(t.subrange(0, i))] + trimmed_pieces(t.skip(i + 1)),
{
    lemma_split_at_first_comma(t, i);
    assert(trimmed_pieces(t) =~~= seq![spec_trim(t.subrange(0, i))] + trimmed_pieces(
        t.skip(i + 1),
    ));
}

pub proof fn lemma_trimmed_pieces_last(t: Seq<char>)
    requires
        forall|j: int| 0 <= j < t.len() ==> t[j] != ',',
    ensures
        trimmed_pieces(t) == seq![spec_trim(t)],
{
    lemma_split_no_comma(t);
    assert(trimmed_pieces(t) =~~= seq![spec_trim(t)]);
}

/// Parses the catalog's text form of a name array, as the discovery query
/// returns it: braces trimmed, pieces split at commas, whitespace stripped.
pub fn parse_name_array(s: &str) -> (r: Vec<String>)
    ensures
        r.deep_view() == spec_name_array(s@),
{
    let n = s.unicode_len();
    // Trim '{' from both ends.
    let mut i1: usize = 0;
    while i1 < n && s.get_char(i1) == '{'
        invariant
            0 <= i1 <= n,
            n == s@.len(),
            forall|j: int| 0 <= j < i1 ==> s@[j] == '{',
        decreases n - i1,
    {
        i1 += 1;
    }
    let mut j1: usize = n;
    while j1 > i1 && s.get_char(j1 - 1) == '{'
        invariant
            i1 <= j1 <= n,
            n == s@.len(),
            forall|k: int| 0 <= k < i1 ==> s@[k] == '{',
            forall|k: int| j1 <= k < n ==> s@[k] == '{',
        decreases j1,
    {
        j1 -= 1;
    }
    let ghost tf = s@.skip(i1 as int);
    let ghost t1 = s@.subrange(i1 as int, j1 as int);
    proof {
        lemma_trim_front_char_skip(s@, '{', i1 as int);
        if j1 == i1 {
            lemma_trim_back_char_take(tf, '{', 0);
        } else {
            lemma_trim_back_char_take(tf, '{', j1 - i1);
        }
        assert(tf.take(j1 - i1) =~= t1);
        assert(trim_char(s@, '{') == t1);
    }
    // Trim '}' from both ends of what is left.
    let mut i2: usize = i1;
    while i2 < j1 && s.get_char(i2) == '}'
        invariant
            i1 <= i2 <= j1 <= n,
            n == s@.len(),
            forall|k: int| i1 <= k < i2 ==> s@[k] == '}',
        decreases j1 - i2,
    {
        i2 += 1;
    }
    let mut j2: usize = j1;
    while j2 > i2 && s.get_char(j2 - 1) == '}'
        invariant
            i2 <= j2 <= j1 <= n,
            n == s@.len(),
            forall|k: int| i1 <= k < i2 ==> s@[k] == '}',
            forall|k: int| j2 <= k < j1 ==> s@[k] == '}',
        decreases j2,
    {
        j2 -= 1;
    }
    let ghost tg = t1.skip(i2 - i1);
    let ghost t2 = s@.subrange(i2 as int, j2 as int);
    proof {
        lemma_trim_front_char_skip(t1, '}', i2 - i1);
        assert(tg =~= s@.subrange(i2 as int, j1 as int));
        if j2 == i2 {
            lemma_trim_back_char_take(tg, '}', 0);
        } else {
            lemma_trim_back_char_take(tg, '}', j2 - i2);
        }
        assert(tg.take(j2 - i2) =~= t2);
        assert(trim_char(trim_char(s@, '{'), '}') == t2);
        assert(spec_name_array(s@) == trimmed_pieces(t2));
    }
    // Split at commas; trim each piece.
    let mut out: Vec<String> = Vec::new();
    let mut p: usize = i2;
    loop
        invariant
            i2 <= p <= j2 <= n,
            n == s@.len(),
            spec_name_array(s@) == out.deep_view() + trimmed_pieces(s@.subrange(p as int, j2 as int)),
        decreases j2 - p,
    {
        let ghost rem = s@.subrange(p as int, j2 as int);
        let mut q: usize = p;
        while q < j2 && s.get_char(q) != ','
            invariant
                p <= q <= j2 <= n,
                n == s@.len(),
                forall|k: int| p <= k < q ==> s@[k] != ',',
            decreases j2 - q,
        {
            q += 1;
        }
        let piece = trim_spaces(s.substring_char(p, q));
        out.push(piece);
        if q == j2 {
            proof {
                assert(forall|k: int| 0 <= k < rem.len() ==> rem[k] != ',');
                lemma_trimmed_pieces_last(rem);
                assert(rem =~= s@.subrange(p as int, q as int));
                assert(out.deep_view() =~~= spec_name_array(s@));
            }
            return out;
        }
        proof {
            assert(rem[q - p] == ',');
            assert(forall|k: int| 0 <= k < q - p ==> rem[k] != ',');
            lemma_trimmed_pieces_step(rem, q - p);
            assert(rem.subrange(0, q - p) =~= s@.subrange(p as int, q as int));
            assert(rem.skip(q - p + 1) =~= s@.subrange(q + 1, j2 as int));
            assert(out.deep_view() + trimmed_pieces(s@.subrange(q + 1, j2 as int))
                =~~= spec_name_array(s@));
        }
        p = q + 1;
    }
}

/// One row of the candidate-index query: a unique or primary index with its
/// name, its column-name array, and whether it is the primary key.
pub struct IndexRow {
    pub index_name: Option<String>,
    pub columns: Option<String>,
    pub is_primary: Option<String>,
}

/// A candidate index, materialized: the name, the columns in index order,
/// and whether it is the primary key.
pub struct IndexCandidate {
    pub name: String,
    pub columns: Vec<String>,
    pub is_primary: bool,
}

/// How a materialized candidate relates to its catalog row: a missing name
/// falls back to a placeholder, a missing array reads as empty, and the
/// primary flag is set exactly on a literal `t`.
pub open spec fn candidate_matches_row(c: IndexCandidate, row: IndexRow) -> bool {
    &&& c.name@ == (match row.index_name {
        Some(n) => n@,
        None => "unnamed_index"@,
    })
    &&& c.columns.deep_view() == spec_name_array(
        match row.columns {
            Some(s) => s@,
            None => Seq::<char>::empty(),
        },
    )
    &&& c.is_primary == (row.is_primary matches Some(p) && p@ == "t"@)
}

/// Materializes one candidate from one catalog row.
pub fn candidate_from_row(row: &IndexRow) -> (c: IndexCandidate)
    ensures
        candidate_matches_row(c, *row),
{
    let name = match &row.index_name {
        Some(n) => n.clone(),
        None => String::from_str("unnamed_index"),
    };
    let columns = match &row.columns {
        Some(s) => parse_name_array(s.as_str()),
        None => {
            proof {
                reveal_strlit("");
                assert(""@ =~= Seq::<char>::empty());
            }
            parse_name_array("")
        },
    };
    let is_primary = match &row.is_primary {
        Some(p) => str_eq(p.as_str(), "t"),
        None => false,
    };
    IndexCandidate { name, columns, is_primary }
}

/// Materializes every candidate row, in row order.
pub fn candidates_from_rows(rows: &Vec<IndexRow>) -> (r: Vec<IndexCandidate>)
    ensures
        r@.len() == rows@.len(),
        forall|i: int|
            0 <= i < rows@.len() ==> candidate_matches_row(#[trigger] r@[i], rows@[i]),
{
    let mut out: Vec<IndexCandidate> = Vec::new();
    let n = rows.len();
    let mut i: usize = 0;
    while i < n
        invariant
            0 <= i <= n,
            n == rows@.len(),
            out@.len() == i,
            forall|j: int|
                0 <= j < i ==> candidate_matches_row(#[trigger] out@[j], rows@[j]),
        decreases n - i,
    {
        let c = candidate_from_row(&rows[i]);
        out.push(c);
        i += 1;
    }
    out
}

/// Whether a column name is among the published columns.
pub open spec fn published_contains(schemas: Seq<ColumnSchema>, col: Seq<char>) -> bool {
    exists|j: int| 0 <= j < schemas.len() && (#[trigger] schemas[j]).name@ == col
}

/// Whether every column of a candidate is published.
pub open spec fn candidate_covered(c: IndexCandidate, schemas: Seq<ColumnSchema>) -> bool {
    forall|i: int|
        0 <= i < c.columns@.len() ==> published_contains(schemas, (#[trigger] c.columns@[i])@)
}

/// The order in which candidates are preferred: the primary key before any
/// other unique index, then by index name, alphabetically.
pub open spec fn candidate_precedes(a: IndexCandidate, b: IndexCandidate) -> bool {
    ||| (a.is_primary && !b.is_primary)
    ||| (a.is_primary == b.is_primary && seq_char_lt(a.name@, b.name@))
}

pub proof fn lemma_candidate_precedes_irrefl(a: IndexCandidate)
    ensures
        !candidate_precedes(a, a),
{
    crate::text::lemma_seq_char_lt_irrefl(a.name@);
}

pub proof fn lemma_candidate_precedes_trans(a: IndexCandidate, b: IndexCandidate, c: IndexCandidate)
    requires
        candidate_precedes(a, b),
        candidate_precedes(b, c),
    ensures
        candidate_precedes(a, c),
{
    if a.is_primary == b.is_primary && b.is_primary == c.is_primary {
        crate::text::lemma_seq_char_lt_trans(a.name@, b.name@, c.name@);
    }
}

/// Decides `published_contains`.
fn published_has(schemas: &Vec<ColumnSchema>, col: &String) -> (r: bool)
    ensures
        r == published_contains(schemas@, col@),
{
    let n = schemas.len();
    let mut j: usize = 0;
    while j < n
        invariant
            0 <= j <= n,
            n == schemas@.len(),
            forall|k: int| 0 <= k < j ==> (#[trigger] schemas@[k]).name@ != col@,
        decreases n - j,
    {
        if str_eq(schemas[j].name.as_str(), col.as_str()) {
            return true;
        }
        j += 1;
    }
    false
}

/// Decides `candidate_covered`.
fn candidate_is_covered(c: &IndexCandidate, schemas: &Vec<ColumnSchema>) -> (r: bool)
    ensures
        r == candidate_covered(*c, schemas@),
{
    let n = c.columns.len();
    let mut i: usize = 0;
    while i < n
        invariant
            0 <= i <= n,
            n == c.columns@.len(),
            forall|k: int|
                0 <= k < i ==> published_contains(schemas@, (#[trigger] c.columns@[k])@),
        decreases n - i,
    {
        if !published_has(schemas, &c.columns[i]) {
            return false;
        }
        i += 1;
    }
    true
}

/// Decides `candidate_precedes`.
fn candidate_precedes_exec(a: &IndexCandidate, b: &IndexCandidate) -> (r: bool)
    ensures
        r == candidate_precedes(*a, *b),
{
    (a.is_primary && !b.is_primary) || (a.is_primary == b.is_primary && str_lt(
        a.name.as_str(),
        b.name.as_str(),
    ))
}

/// What the selected lookup key promises: `FullRow` exactly when no
/// candidate is covered by the published columns; otherwise a covered
/// candidate that no other covered candidate precedes.
pub open spec fn lookup_key_selected(
    cands: Seq<IndexCandidate>,
    schemas: Seq<ColumnSchema>,
    r: LookupKey,
) -> bool {
    &&& (r is FullRow <==> (forall|i: int|
        0 <= i < cands.len() ==> !candidate_covered(#[trigger] cands[i], schemas)))
    &&& (r matches LookupKey::Key { name, columns } ==> exists|i: int|
        0 <= i < cands.len() && candidate_covered(#[trigger] cands[i], schemas) && name@
            == cands[i].name@ && columns.deep_view() == cands[i].columns.deep_view() && (forall|
            j: int,
        |
            0 <= j < cands.len() && candidate_covered(#[trigger] cands[j], schemas)
                ==> !candidate_precedes(cands[j], cands[i])))
}

/// Copies a vector of names.
fn clone_string_vec(v: &Vec<String>) -> (r: Vec<String>)
    ensures
        r.deep_view() == v.deep_view(),
{
    let n = v.len();
    let mut out: Vec<String> = Vec::new();
    let mut i: usize = 0;
    while i < n
        invariant
            0 <= i <= n,
            n == v@.len(),
            out@.len() == i,
            forall|k: int| 0 <= k < i ==> (#[trigger] out@[k])@ == v@[k]@,
        decreases n - i,
    {
        out.push(v[i].clone());
        i += 1;
    }
    proof {
        assert(out.deep_view() =~~= v.deep_view());
    }
    out
}

/// Picks the lookup key for a table: among the candidate indexes whose
/// columns are all published, the primary key if any, else the
/// alphabetically first; `FullRow` when no candidate qualifies.
pub fn select_lookup_key(candidates: &Vec<IndexCandidate>, column_schemas: &Vec<ColumnSchema>) -> (r:
    LookupKey)
    ensures
        lookup_key_selected(candidates@, column_schemas@, r),
{
    let n = candidates.len();
    let mut best: Option<usize> = None;
    let mut i: usize = 0;
    while i < n
        invariant
            0 <= i <= n,
            n == candidates@.len(),
            best matches Some(b) ==> (b < i && candidate_covered(
                candidates@[b as int],
                column_schemas@,
            ) && (forall|j: int|
                0 <= j < i && candidate_covered(#[trigger] candidates@[j], column_schemas@)
                    ==> !candidate_precedes(candidates@[j], candidates@[b as int]))),
            best is None ==> (forall|j: int|
                0 <= j < i ==> !candidate_covered(#[trigger] candidates@[j], column_schemas@)),
        decreases n - i,
    {
        if candidate_is_covered(&candidates[i], column_schemas) {
            match best {
                None => {
                    proof {
                        lemma_candidate_precedes_irrefl(candidates@[i as int]);
                    }
                    best = Some(i);
                },
                Some(b) => {
                    if candidate_precedes_exec(&candidates[i], &candidates[b]) {
                        proof {
                            let ci = candidates@[i as int];
                            let cb = candidates@[b as int];
                            assert forall|j: int|
                                0 <= j < i + 1 && candidate_covered(
                                    #[trigger] candidates@[j],
                                    column_schemas@,
                                ) implies !candidate_precedes(candidates@[j], ci) by {
                                if j == i as int {
                                    lemma_candidate_precedes_irrefl(ci);
                                } else if candidate_precedes(candidates@[j], ci) {
                                    lemma_candidate_precedes_trans(candidates@[j], ci, cb);
                                }
                            }
                        }
                        best = Some(i);
                    }
                },
            }
        }
        i += 1;
    }
    match best {
        None => LookupKey::FullRow,
        Some(b) => {
            let name = candidates[b].name.clone();
            let columns = clone_string_vec(&candidates[b].columns);
            LookupKey::Key { name, columns }
        },
    }
}

/// Lookup-key safety: every column of a selected `Key` is among the names
/// of the published column schemas.
pub proof fn lemma_lookup_key_columns_published(
    cands: Seq<IndexCandidate>,
    schemas: Seq<ColumnSchema>,
    r: LookupKey,
)
    requires
        lookup_key_selected(cands, schemas, r),
    ensures
        r matches LookupKey::Key { name, columns } ==> forall|k: int|
            0 <= k < columns.deep_view().len() ==> published_contains(
                schemas,
                #[trigger] columns.deep_view()[k],
            ),
{
    match r {
        LookupKey::FullRow => {
        },
        LookupKey::Key { name, columns } => {
            let i = choose|i: int|
                0 <= i < cands.len() && candidate_covered(#[trigger] cands[i], schemas) && name@
                    == cands[i].name@ && columns.deep_view() == cands[i].columns.deep_view() && (
                forall|j: int|
                    0 <= j < cands.len() && candidate_covered(#[trigger] cands[j], schemas)
                        ==> !candidate_precedes(cands[j], cands[i]));
            assert forall|k: int| 0 <= k < columns.deep_view().len() implies published_contains(
                schemas,
                #[trigger] columns.deep_view()[k],
            ) by {
                assert(columns.deep_view()[k] == (cands[i].columns@[k])@);
                assert(published_contains(schemas, (cands[i].columns@[k])@));
            }
        },
    }
}

/// Primary-key preference: when the table's primary key is among the
/// covered candidates and no other candidate is primary, the selected key
/// is that primary key.
pub proof fn lemma_primary_key_preferred(
    cands: Seq<IndexCandidate>,
    schemas: Seq<ColumnSchema>,
    r: LookupKey,
    pi: int,
)
    requires
        lookup_key_selected(cands, schemas, r),
        0 <= pi < cands.len(),
        cands[pi].is_primary,
        candidate_covered(cands[pi], schemas),
        forall|j: int| 0 <= j < cands.len() && j != pi ==> !(#[trigger] cands[j]).is_primary,
    ensures
        r matches LookupKey::Key { name, columns } && name@ == cands[pi].name@
            && columns.deep_view() == cands[pi].columns.deep_view(),
{
    match r {
        LookupKey::FullRow => {
            assert(!candidate_covered(cands[pi], schemas));
            assert(false);
        },
        LookupKey::Key { name, columns } => {
            let i = choose|i: int|
                0 <= i < cands.len() && candidate_covered(#[trigger] cands[i], schemas) && name@
                    == cands[i].name@ && columns.deep_view() == cands[i].columns.deep_view() && (
                forall|j: int|
                    0 <= j < cands.len() && candidate_covered(#[trigger] cands[j], schemas)
                        ==> !candidate_precedes(cands[j], cands[i]));
            if !cands[i].is_primary {
                assert(candidate_precedes(cands[pi], cands[i]));
                assert(false);
            }
            assert(i == pi);
        },
    }
}

} // verus!
