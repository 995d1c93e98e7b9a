use crate::grammar::is_identifier_char;
use crate::grammar::is_identifier_start;
use crate::grammar::is_source_char;
use crate::grammar::is_space_char;
use crate::grammar::lemma_identifier_chars_end_at;
use crate::grammar::lemma_source_chars_end_at;
use crate::grammar::lemma_space_end_at;
use crate::grammar::match_columns;
use crate::grammar::match_identifier;
use crate::grammar::match_more_columns;
use crate::grammar::match_select;
use crate::grammar::matches_from_keyword;
use crate::grammar::matches_select_keyword;
use crate::grammar::select_query_wf;
use crate::grammar::source_chars_end;
use crate::grammar::space_end;
use crate::grammar::termination_end;
use crate::grammar::valid_identifier;
use crate::syntax_tree::SelectQueryView;
use vstd::prelude::*;

verus! {

/// Every well-formed identifier is matched by the identifier rule exactly:
/// the rule succeeds on it, consumes all of it, and leaves no remainder, so
/// the matched text is the identifier itself.
pub proof fn lemma_identifier_rule_exact(s: Seq<char>)
    requires
        valid_identifier(s),
    ensures
        match_identifier(s, 0) == Some(s.len() as int),
        s.subrange(0, s.len() as int) == s,
{
    lemma_identifier_chars_end_at(s, 1, s.len() as int);
    assert(s.subrange(0, s.len() as int) =~= s);
}

/// The column list as the reconstruction writes it: the column names joined
/// with single commas, no surrounding whitespace.
pub open spec fn join_columns(columns: Seq<Seq<char>>) -> Seq<char>
    decreases columns.len(),
{
    if columns.len() == 0 {
        seq![]
    } else if columns.len() == 1 {
        columns[0]
    } else {
        columns[0] + seq![','] + join_columns(columns.drop_first())
    }
}

/// The textual reconstruction of a parsed SELECT statement:
/// the keyword `SELECT`, a space, the columns joined with commas, a space,
/// the keyword `FROM`, a space, the source name, and a closing semicolon.
pub open spec fn reconstruct_select(q: SelectQueryView) -> Seq<char> {
    seq!['S', 'E', 'L', 'E', 'C', 'T', ' '] + join_columns(q.columns) + seq![
        ' ',
        'F',
        'R',
        'O',
        'M',
        ' ',
    ] + q.source + seq![';']
}

proof fn lemma_join_columns_parses(s: Seq<char>, pos: int, columns: Seq<Seq<char>>)
    requires
        columns.len() >= 1,
        forall|i: int| 0 <= i < columns.len() ==> valid_identifier(#[trigger] columns[i]),
        0 <= pos,
        pos + join_columns(columns).len() <= s.len(),
        s.subrange(pos, pos + join_columns(columns).len()) == join_columns(columns),
        pos + join_columns(columns).len() == s.len() || !is_identifier_char(
            s[pos + join_columns(columns).len()],
        ),
        space_end(s, pos + join_columns(columns).len()) == s.len() || s[space_end(
            s,
            pos + join_columns(columns).len(),
        )] != ',',
    ensures
        match_columns(s, pos) == Some((columns, pos + join_columns(columns).len())),
    decreases columns.len(),
{
    let j = join_columns(columns);
    let e = pos + j.len();
    let first = columns[0];
    assert(forall|k: int| 0 <= k < j.len() ==> j[k] == s[pos + k]) by {
        assert(forall|k: int|
            0 <= k < j.len() ==> s.subrange(pos, e)[k] == #[trigger] s[pos + k]);
    }
    if columns.len() == 1 {
        assert(j == first);
        assert(is_identifier_start(s[pos]));
        assert forall|k: int| pos + 1 <= k < e implies is_identifier_char(#[trigger] s[k]) by {
            assert(s[k] == first[k - pos]);
        }
        lemma_identifier_chars_end_at(s, pos + 1, e);
        assert(s.subrange(pos, e) =~= first);
        assert(match_more_columns(s, e) == (Seq::<Seq<char>>::empty(), e));
        assert(seq![s.subrange(pos, e)] =~= columns);
    } else {
        let rest = columns.drop_first();
        let j2 = join_columns(rest);
        let e0 = pos + first.len();
        // the shape of the joined text: the first column, a comma, the rest
        assert(j == first + seq![','] + j2);
        assert(forall|k: int| 0 <= k < first.len() ==> j[k] == #[trigger] first[k]);
        assert(j[first.len() as int] == ',');
        assert(forall|k: int|
            0 <= k < j2.len() ==> j[first.len() + 1 + k] == #[trigger] j2[k]);
        // the first identifier ends exactly at the comma
        assert(is_identifier_start(s[pos]));
        assert forall|k: int| pos + 1 <= k < e0 implies is_identifier_char(#[trigger] s[k]) by {
            assert(s[k] == first[k - pos]);
        }
        assert(s[e0] == ',');
        assert(!is_identifier_char(s[e0]));
        lemma_identifier_chars_end_at(s, pos + 1, e0);
        assert(match_identifier(s, pos) == Some(e0));
        // the comma is consumed bare: no whitespace on either side
        assert(!is_space_char(s[e0]));
        assert(space_end(s, e0) == e0);
        assert(valid_identifier(rest[0]));
        assert(s[e0 + 1] == j2[0]);
        assert(j2[0] == rest[0][0]) by {
            if rest.len() == 1 {
                assert(j2 == rest[0]);
            }
        }
        assert(is_identifier_start(s[e0 + 1]));
        assert(!is_space_char(s[e0 + 1]));
        assert(space_end(s, e0 + 1) == e0 + 1);
        // the remaining columns parse by induction from past the comma
        assert(s.subrange(e0 + 1, e0 + 1 + j2.len()) =~= j2);
        assert(e0 + 1 + j2.len() == e);
        lemma_join_columns_parses(s, e0 + 1, rest);
        assert(match_identifier(s, e0 + 1) is Some);
        let e2 = match_identifier(s, e0 + 1)->Some_0;
        assert(match_more_columns(s, e0).0 == seq![s.subrange(e0 + 1, e2)]
            + match_more_columns(s, e2).0);
        assert(match_more_columns(s, e0).1 == match_more_columns(s, e2).1);
        assert(match_columns(s, e0 + 1) == Some(
            (seq![s.subrange(e0 + 1, e2)] + match_more_columns(s, e2).0, match_more_columns(
                s,
                e2,
            ).1),
        ));
        assert(match_more_columns(s, e0).0 =~= rest);
        assert(s.subrange(pos, e0) =~= first);
        assert(seq![s.subrange(pos, e0)] + rest =~= columns);
    }
}

/// Idempotence of the textual reconstruction: parsing the reconstruction of
/// a well-formed SELECT statement with the select rule yields that very
/// statement back and consumes the whole text.
pub proof fn lemma_reconstruct_round_trip(q: SelectQueryView)
    requires
        select_query_wf(q),
    ensures
        match_select(reconstruct_select(q), 0) == Some(
            (q, reconstruct_select(q).len() as int),
        ),
{
    let s = reconstruct_select(q);
    let j = join_columns(q.columns);
    let n = j.len() as int;
    let m = q.source.len() as int;
    assert(n >= 1) by {
        if q.columns.len() == 1 {
            assert(j == q.columns[0]);
        }
        assert(valid_identifier(q.columns[0]));
    }
    assert(s.len() == 14 + n + m);
    // the SELECT keyword and its mandatory space
    assert(matches_select_keyword(s, 0));
    assert(s[6] == ' ');
    assert(s[7] == j[0]);
    assert(j[0] == q.columns[0][0]) by {
        if q.columns.len() == 1 {
            assert(j == q.columns[0]);
        }
        assert(valid_identifier(q.columns[0]));
    }
    assert(is_identifier_start(s[7]));
    lemma_space_end_at(s, 7, 7);
    assert(space_end(s, 6) == 7);
    // the column list, bounded by the space before FROM
    assert(s[7 + n] == ' ');
    assert(s[8 + n] == 'F');
    lemma_space_end_at(s, 7 + n, 8 + n);
    assert(space_end(s, 7 + n) == 8 + n);
    assert(s.subrange(7, 7 + n) =~= j);
    lemma_join_columns_parses(s, 7, q.columns);
    assert(match_columns(s, 7) == Some((q.columns, 7 + n)));
    // the FROM keyword and its mandatory spaces
    assert(is_space_char(s[7 + n]));
    assert(matches_from_keyword(s, 8 + n));
    assert(s[12 + n] == ' ');
    assert(s[13 + n] == q.source[0]);
    assert(is_source_char(s[13 + n]));
    lemma_space_end_at(s, 12 + n, 13 + n);
    assert(space_end(s, 12 + n) == 13 + n);
    // the source name, bounded by the closing semicolon
    assert forall|k: int| 14 + n <= k < 13 + n + m implies is_source_char(#[trigger] s[k]) by {
        assert(s[k] == q.source[k - (13 + n)]);
    }
    assert(s[13 + n + m] == ';');
    assert(!is_source_char(s[13 + n + m]));
    lemma_source_chars_end_at(s, 14 + n, 13 + n + m);
    assert(source_chars_end(s, 14 + n) == 13 + n + m);
    assert(s.subrange(13 + n, 13 + n + m) =~= q.source);
    // the termination rule consumes the semicolon and ends the input
    assert(!is_space_char(s[13 + n + m]));
    lemma_space_end_at(s, 13 + n + m, 13 + n + m);
    lemma_space_end_at(s, 14 + n + m, 14 + n + m);
    assert(termination_end(s, 13 + n + m) == 14 + n + m);
    let parsed = match_select(s, 0)->Some_0;
    assert(parsed.0 =~= q);
}

} // verus!
