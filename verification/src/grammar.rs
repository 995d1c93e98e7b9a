use crate::syntax_tree::SelectQueryView;
use crate::syntax_tree::StatementView;
use vstd::prelude::*;

verus! {

// ---------------------------------------------------------------------------
// Character classes
// ---------------------------------------------------------------------------

/// Whitespace between tokens: space, tab, carriage return or line feed.
pub open spec fn is_space_char(c: char) -> bool {
    c == ' ' || c == '\t' || c == '\r' || c == '\n'
}

pub open spec fn is_lower_letter(c: char) -> bool {
    'a' as u32 <= c as u32 && c as u32 <= 'z' as u32
}

pub open spec fn is_upper_letter(c: char) -> bool {
    'A' as u32 <= c as u32 && c as u32 <= 'Z' as u32
}

pub open spec fn is_digit_char(c: char) -> bool {
    '0' as u32 <= c as u32 && c as u32 <= '9' as u32
}

/// Characters of a source name: plain alphanumerics. The source rule is
/// deliberately laxer than the identifier rule and admits no underscore.
pub open spec fn is_source_char(c: char) -> bool {
    is_lower_letter(c) || is_upper_letter(c) || is_digit_char(c)
}

/// First character of an identifier: a letter or an underscore.
pub open spec fn is_identifier_start(c: char) -> bool {
    c == '_' || is_lower_letter(c) || is_upper_letter(c)
}

/// Any later character of an identifier: a letter, a digit or an underscore.
pub open spec fn is_identifier_char(c: char) -> bool {
    is_identifier_start(c) || is_digit_char(c)
}

/// Case-insensitive match of the input character `c` against the keyword
/// character `k`, the keyword being spelled in lower case: `c` is `k` itself
/// or its upper-case form, which sits 32 code points below.
pub open spec fn keyword_char_match(c: char, k: char) -> bool {
    c == k || c as u32 + 32 == k as u32
}

// ---------------------------------------------------------------------------
// Token scans
// ---------------------------------------------------------------------------

/// Index of the first position at or after `pos` holding no whitespace.
pub open spec fn space_end(s: Seq<char>, pos: int) -> int
    decreases s.len() - pos,
{
    if 0 <= pos < s.len() && is_space_char(s[pos]) {
        space_end(s, pos + 1)
    } else {
        pos
    }
}

/// Index of the first position at or after `pos` holding no identifier
/// character.
pub open spec fn identifier_chars_end(s: Seq<char>, pos: int) -> int
    decreases s.len() - pos,
{
    if 0 <= pos < s.len() && is_identifier_char(s[pos]) {
        identifier_chars_end(s, pos + 1)
    } else {
        pos
    }
}

/// Index of the first position at or after `pos` holding no source-name
/// character.
pub open spec fn source_chars_end(s: Seq<char>, pos: int) -> int
    decreases s.len() - pos,
{
    if 0 <= pos < s.len() && is_source_char(s[pos]) {
        source_chars_end(s, pos + 1)
    } else {
        pos
    }
}

pub proof fn lemma_space_end_bounds(s: Seq<char>, pos: int)
    ensures
        pos <= space_end(s, pos),
        pos <= s.len() ==> space_end(s, pos) <= s.len(),
    decreases s.len() - pos,
{
    if 0 <= pos < s.len() && is_space_char(s[pos]) {
        lemma_space_end_bounds(s, pos + 1);
    }
}

pub proof fn lemma_identifier_chars_end_bounds(s: Seq<char>, pos: int)
    ensures
        pos <= identifier_chars_end(s, pos),
        pos <= s.len() ==> identifier_chars_end(s, pos) <= s.len(),
    decreases s.len() - pos,
{
    if 0 <= pos < s.len() && is_identifier_char(s[pos]) {
        lemma_identifier_chars_end_bounds(s, pos + 1);
    }
}

pub proof fn lemma_source_chars_end_bounds(s: Seq<char>, pos: int)
    ensures
        pos <= source_chars_end(s, pos),
        pos <= s.len() ==> source_chars_end(s, pos) <= s.len(),
    decreases s.len() - pos,
{
    if 0 <= pos < s.len() && is_source_char(s[pos]) {
        lemma_source_chars_end_bounds(s, pos + 1);
    }
}

pub proof fn lemma_space_end_at(s: Seq<char>, from: int, to: int)
    requires
        0 <= from <= to <= s.len(),
        forall|k: int| from <= k < to ==> is_space_char(s[k]),
        to == s.len() || !is_space_char(s[to]),
    ensures
        space_end(s, from) == to,
    decreases to - from,
{
    if from < to {
        lemma_space_end_at(s, from + 1, to);
    }
}

pub proof fn lemma_identifier_chars_end_at(s: Seq<char>, from: int, to: int)
    requires
        0 <= from <= to <= s.len(),
        forall|k: int| from <= k < to ==> is_identifier_char(s[k]),
        to == s.len() || !is_identifier_char(s[to]),
    ensures
        identifier_chars_end(s, from) == to,
    decreases to - from,
{
    if from < to {
        lemma_identifier_chars_end_at(s, from + 1, to);
    }
}

pub proof fn lemma_source_chars_end_at(s: Seq<char>, from: int, to: int)
    requires
        0 <= from <= to <= s.len(),
        forall|k: int| from <= k < to ==> is_source_char(s[k]),
        to == s.len() || !is_source_char(s[to]),
    ensures
        source_chars_end(s, from) == to,
    decreases to - from,
{
    if from < to {
        lemma_source_chars_end_at(s, from + 1, to);
    }
}

pub proof fn lemma_identifier_chars_end_chars(s: Seq<char>, pos: int)
    requires
        0 <= pos <= s.len(),
    ensures
        forall|k: int| pos <= k < identifier_chars_end(s, pos) ==> is_identifier_char(s[k]),
    decreases s.len() - pos,
{
    if pos < s.len() && is_identifier_char(s[pos]) {
        lemma_identifier_chars_end_chars(s, pos + 1);
        lemma_identifier_chars_end_bounds(s, pos + 1);
    }
}

pub proof fn lemma_source_chars_end_chars(s: Seq<char>, pos: int)
    requires
        0 <= pos <= s.len(),
    ensures
        forall|k: int| pos <= k < source_chars_end(s, pos) ==> is_source_char(s[k]),
    decreases s.len() - pos,
{
    if pos < s.len() && is_source_char(s[pos]) {
        lemma_source_chars_end_chars(s, pos + 1);
        lemma_source_chars_end_bounds(s, pos + 1);
    }
}

// ---------------------------------------------------------------------------
// Well-formed names and statements
// ---------------------------------------------------------------------------

/// A well-formed identifier: a first character per `is_identifier_start`,
/// every later one per `is_identifier_char`.
pub open spec fn valid_identifier(s: Seq<char>) -> bool {
    &&& s.len() > 0
    &&& is_identifier_start(s[0])
    &&& forall|i: int| 1 <= i < s.len() ==> is_identifier_char(s[i])
}

/// A well-formed source name: one or more plain alphanumeric characters.
pub open spec fn valid_source(s: Seq<char>) -> bool {
    &&& s.len() > 0
    &&& forall|i: int| 0 <= i < s.len() ==> is_source_char(s[i])
}

/// The invariant of a parsed SELECT statement: at least one column, every
/// column a well-formed identifier, the source a well-formed source name.
pub open spec fn select_query_wf(q: SelectQueryView) -> bool {
    &&& q.columns.len() > 0
    &&& forall|i: int| 0 <= i < q.columns.len() ==> valid_identifier(#[trigger] q.columns[i])
    &&& valid_source(q.source)
}

// ---------------------------------------------------------------------------
// Lexical rules
// ---------------------------------------------------------------------------

/// The identifier rule: from `pos`, the longest prefix shaped like an
/// identifier. `Some(end)` means the characters in `pos .. end` form the
/// matched identifier; `None` means the rule fails and consumes nothing.
pub open spec fn match_identifier(s: Seq<char>, pos: int) -> Option<int> {
    if 0 <= pos < s.len() && is_identifier_start(s[pos]) {
        Some(identifier_chars_end(s, pos + 1))
    } else {
        None
    }
}

/// The statement-termination rule: whitespace, then at most one semicolon,
/// then whitespace. It always succeeds; the result is the first position
/// after the consumed span, possibly `pos` itself.
pub open spec fn termination_end(s: Seq<char>, pos: int) -> int {
    let a = space_end(s, pos);
    let b = if a < s.len() && s[a] == ';' {
        a + 1
    } else {
        a
    };
    space_end(s, b)
}

/// The keyword `SELECT`, case-insensitively, at `pos`.
pub open spec fn matches_select_keyword(s: Seq<char>, pos: int) -> bool {
    &&& 0 <= pos
    &&& pos + 6 <= s.len()
    &&& keyword_char_match(s[pos], 's')
    &&& keyword_char_match(s[pos + 1], 'e')
    &&& keyword_char_match(s[pos + 2], 'l')
    &&& keyword_char_match(s[pos + 3], 'e')
    &&& keyword_char_match(s[pos + 4], 'c')
    &&& keyword_char_match(s[pos + 5], 't')
}

/// The keyword `FROM`, case-insensitively, at `pos`.
pub open spec fn matches_from_keyword(s: Seq<char>, pos: int) -> bool {
    &&& 0 <= pos
    &&& pos + 4 <= s.len()
    &&& keyword_char_match(s[pos], 'f')
    &&& keyword_char_match(s[pos + 1], 'r')
    &&& keyword_char_match(s[pos + 2], 'o')
    &&& keyword_char_match(s[pos + 3], 'm')
}

// ---------------------------------------------------------------------------
// The column list
// ---------------------------------------------------------------------------

/// After a column ending at `end`, the further `, identifier` pairs the
/// column-list rule consumes: the columns matched, and the end of the last
/// identifier consumed (or `end` where none is). A comma whose following
/// identifier fails is not consumed: the rule backtracks to `end`.
pub open spec fn match_more_columns(s: Seq<char>, end: int) -> (Seq<Seq<char>>, int)
    decreases s.len() - end,
{
    let a = space_end(s, end);
    if a < s.len() && s[a] == ',' {
        let b = space_end(s, a + 1);
        match match_identifier(s, b) {
            Some(e2) => {
                proof {
                    lemma_space_end_bounds(s, end);
                    lemma_space_end_bounds(s, a + 1);
                    lemma_identifier_chars_end_bounds(s, b + 1);
                }
                let (rest, q) = match_more_columns(s, e2);
                (seq![s.subrange(b, e2)] + rest, q)
            },
            None => (seq![], end),
        }
    } else {
        (seq![], end)
    }
}

/// The column-list rule: one identifier, then as many further `, identifier`
/// pairs as match. `Some((columns, end))` gives the columns in source order
/// and the end of the last one; `None` means no identifier starts at `pos`.
pub open spec fn match_columns(s: Seq<char>, pos: int) -> Option<(Seq<Seq<char>>, int)> {
    match match_identifier(s, pos) {
        Some(e) => {
            let (rest, q) = match_more_columns(s, e);
            Some((seq![s.subrange(pos, e)] + rest, q))
        },
        None => None,
    }
}

pub proof fn lemma_match_more_columns_bounds(s: Seq<char>, end: int)
    requires
        0 <= end <= s.len(),
    ensures
        end <= match_more_columns(s, end).1 <= s.len(),
    decreases s.len() - end,
{
    let a = space_end(s, end);
    lemma_space_end_bounds(s, end);
    if a < s.len() && s[a] == ',' {
        let b = space_end(s, a + 1);
        lemma_space_end_bounds(s, a + 1);
        match match_identifier(s, b) {
            Some(e2) => {
                lemma_identifier_chars_end_bounds(s, b + 1);
                lemma_match_more_columns_bounds(s, e2);
            },
            None => {},
        }
    }
}

pub proof fn lemma_match_columns_bounds(s: Seq<char>, pos: int)
    ensures
        match match_columns(s, pos) {
            Some(r) => pos < r.1 <= s.len(),
            None => true,
        },
{
    match match_identifier(s, pos) {
        Some(e) => {
            lemma_identifier_chars_end_bounds(s, pos + 1);
            lemma_match_more_columns_bounds(s, e);
        },
        None => {},
    }
}

// ---------------------------------------------------------------------------
// The SELECT statement
// ---------------------------------------------------------------------------

/// The select-statement rule: the keyword `SELECT`, mandatory whitespace,
/// the column list, mandatory whitespace, the keyword `FROM`, mandatory
/// whitespace, a source name, then the termination rule. `Some((q, end))`
/// carries the parsed statement and the first unconsumed position; `None`
/// means the rule fails and consumes nothing.
pub open spec fn match_select(s: Seq<char>, pos: int) -> Option<(SelectQueryView, int)> {
    if !matches_select_keyword(s, pos) {
        None
    } else {
        let p1 = pos + 6;
        if !(p1 < s.len() && is_space_char(s[p1])) {
            None
        } else {
            let p2 = space_end(s, p1);
            match match_columns(s, p2) {
                None => None,
                Some((columns, p3)) => {
                    if !(p3 < s.len() && is_space_char(s[p3])) {
                        None
                    } else {
                        let p4 = space_end(s, p3);
                        if !matches_from_keyword(s, p4) {
                            None
                        } else {
                            let p5 = p4 + 4;
                            if !(p5 < s.len() && is_space_char(s[p5])) {
                                None
                            } else {
                                let p6 = space_end(s, p5);
                                if p6 < s.len() && is_source_char(s[p6]) {
                                    let p7 = source_chars_end(s, p6 + 1);
                                    let q = SelectQueryView {
                                        source: s.subrange(p6, p7),
                                        columns,
                                    };
                                    Some((q, termination_end(s, p7)))
                                } else {
                                    None
                                }
                            }
                        }
                    }
                }
            }
        }
    }
}

pub proof fn lemma_termination_end_bounds(s: Seq<char>, pos: int)
    requires
        0 <= pos <= s.len(),
    ensures
        pos <= termination_end(s, pos) <= s.len(),
{
    let a = space_end(s, pos);
    lemma_space_end_bounds(s, pos);
    if a < s.len() && s[a] == ';' {
        lemma_space_end_bounds(s, a + 1);
    } else {
        lemma_space_end_bounds(s, a);
    }
}

pub proof fn lemma_match_select_bounds(s: Seq<char>, pos: int)
    ensures
        match match_select(s, pos) {
            Some(r) => pos < r.1 <= s.len(),
            None => true,
        },
{
    if matches_select_keyword(s, pos) {
        let p1 = pos + 6;
        if p1 < s.len() && is_space_char(s[p1]) {
            let p2 = space_end(s, p1);
            lemma_space_end_bounds(s, p1);
            lemma_match_columns_bounds(s, p2);
            match match_columns(s, p2) {
                Some((columns, p3)) => {
                    if p3 < s.len() && is_space_char(s[p3]) {
                        let p4 = space_end(s, p3);
                        lemma_space_end_bounds(s, p3);
                        if matches_from_keyword(s, p4) {
                            let p5 = p4 + 4;
                            if p5 < s.len() && is_space_char(s[p5]) {
                                let p6 = space_end(s, p5);
                                lemma_space_end_bounds(s, p5);
                                if p6 < s.len() && is_source_char(s[p6]) {
                                    let p7 = source_chars_end(s, p6 + 1);
                                    lemma_source_chars_end_bounds(s, p6 + 1);
                                    lemma_termination_end_bounds(s, p7);
                                }
                            }
                        }
                    }
                },
                None => {},
            }
        }
    }
}

proof fn lemma_match_more_columns_wf(s: Seq<char>, end: int)
    requires
        0 <= end <= s.len(),
    ensures
        forall|i: int|
            0 <= i < match_more_columns(s, end).0.len() ==> valid_identifier(
                #[trigger] match_more_columns(s, end).0[i],
            ),
    decreases s.len() - end,
{
    let a = space_end(s, end);
    lemma_space_end_bounds(s, end);
    if a < s.len() && s[a] == ',' {
        let b = space_end(s, a + 1);
        lemma_space_end_bounds(s, a + 1);
        match match_identifier(s, b) {
            Some(e2) => {
                lemma_identifier_chars_end_bounds(s, b + 1);
                lemma_identifier_chars_end_chars(s, b + 1);
                assert(valid_identifier(s.subrange(b, e2)));
                lemma_match_more_columns_wf(s, e2);
                let cols = match_more_columns(s, end).0;
                let rest = match_more_columns(s, e2).0;
                assert forall|i: int| 0 <= i < cols.len() implies valid_identifier(
                    #[trigger] cols[i],
                ) by {
                    if i == 0 {
                        assert(cols[i] == s.subrange(b, e2));
                    } else {
                        assert(cols[i] == rest[i - 1]);
                    }
                }
            },
            None => {},
        }
    }
}

proof fn lemma_match_columns_wf(s: Seq<char>, pos: int)
    ensures
        match match_columns(s, pos) {
            Some(r) => {
                &&& r.0.len() > 0
                &&& forall|i: int| 0 <= i < r.0.len() ==> valid_identifier(#[trigger] r.0[i])
            },
            None => true,
        },
{
    match match_identifier(s, pos) {
        Some(e) => {
            lemma_identifier_chars_end_bounds(s, pos + 1);
            lemma_identifier_chars_end_chars(s, pos + 1);
            assert(valid_identifier(s.subrange(pos, e)));
            lemma_match_more_columns_wf(s, e);
        },
        None => {},
    }
}

/// Every statement the select rule recognizes satisfies the statement
/// invariant: a non-empty column list of well-formed identifiers and a
/// well-formed source name.
pub proof fn lemma_match_select_wf(s: Seq<char>, pos: int)
    ensures
        match match_select(s, pos) {
            Some(r) => select_query_wf(r.0),
            None => true,
        },
{
    if matches_select_keyword(s, pos) {
        let p1 = pos + 6;
        if p1 < s.len() && is_space_char(s[p1]) {
            let p2 = space_end(s, p1);
            lemma_space_end_bounds(s, p1);
            lemma_match_columns_wf(s, p2);
            lemma_match_columns_bounds(s, p2);
            match match_columns(s, p2) {
                Some((columns, p3)) => {
                    if p3 < s.len() && is_space_char(s[p3]) {
                        let p4 = space_end(s, p3);
                        lemma_space_end_bounds(s, p3);
                        if matches_from_keyword(s, p4) {
                            let p5 = p4 + 4;
                            if p5 < s.len() && is_space_char(s[p5]) {
                                let p6 = space_end(s, p5);
                                lemma_space_end_bounds(s, p5);
                                if p6 < s.len() && is_source_char(s[p6]) {
                                    let p7 = source_chars_end(s, p6 + 1);
                                    lemma_source_chars_end_bounds(s, p6 + 1);
                                    lemma_source_chars_end_chars(s, p6 + 1);
                                    assert(valid_source(s.subrange(p6, p7)));
                                }
                            }
                        }
                    }
                },
                None => {},
            }
        }
    }
}

// ---------------------------------------------------------------------------
// Statements and the document
// ---------------------------------------------------------------------------

/// One statement: the one-of choice over the supported statement kinds,
/// today only the select statement.
pub open spec fn match_statement(s: Seq<char>, pos: int) -> Option<(StatementView, int)> {
    match match_select(s, pos) {
        Some((q, end)) => Some((StatementView::SelectQuery(q), end)),
        None => None,
    }
}

/// The document rule: as many statements as match, from `pos` on. Returns
/// the statements in source order and the position where no further
/// statement matches; it never fails, and an input without any recognizable
/// statement yields the empty sequence.
pub open spec fn match_statements(s: Seq<char>, pos: int) -> (Seq<StatementView>, int)
    decreases s.len() - pos,
{
    match match_statement(s, pos) {
        Some((st, p)) => {
            proof {
                lemma_match_select_bounds(s, pos);
            }
            let (rest, q) = match_statements(s, p);
            (seq![st] + rest, q)
        },
        None => (seq![], pos),
    }
}

/// The whole document: every statement the document rule recognizes from
/// the start of the input, and the position of the unconsumed remainder.
pub open spec fn match_document(s: Seq<char>) -> (Seq<StatementView>, int) {
    match_statements(s, 0)
}

} // verus!
