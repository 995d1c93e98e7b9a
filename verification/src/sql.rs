use crate::grammar::identifier_chars_end;
use crate::grammar::is_identifier_char;
use crate::grammar::is_identifier_start;
use crate::grammar::is_source_char;
use crate::grammar::is_space_char;
use crate::grammar::keyword_char_match;
use crate::grammar::lemma_identifier_chars_end_bounds;
use crate::grammar::lemma_source_chars_end_bounds;
use crate::grammar::match_columns;
use crate::grammar::match_document;
use crate::grammar::match_identifier;
use crate::grammar::match_more_columns;
use crate::grammar::match_select;
use crate::grammar::match_statement;
use crate::grammar::match_statements;
use crate::grammar::matches_from_keyword;
use crate::grammar::matches_select_keyword;
use crate::grammar::source_chars_end;
use crate::grammar::space_end;
use crate::grammar::termination_end;
use crate::syntax_tree::SelectQueryData;
use crate::syntax_tree::Statement;
use crate::syntax_tree::SyntaxTree;
use vstd::prelude::*;

verus! {

/// Relies on String::push: it appends exactly the given character.
#[verifier::external_body]
fn push_char(text: &mut String, c: char)
    ensures
        final(text)@ == old(text)@.push(c),
{
    text.push(c);
}

fn space_char(c: char) -> (r: bool)
    ensures
        r == is_space_char(c),
{
    c == ' ' || c == '\t' || c == '\r' || c == '\n'
}

fn identifier_start_char(c: char) -> (r: bool)
    ensures
        r == is_identifier_start(c),
{
    c == '_' || ('a' as u32 <= c as u32 && c as u32 <= 'z' as u32) || ('A' as u32 <= c as u32
        && c as u32 <= 'Z' as u32)
}

fn identifier_char(c: char) -> (r: bool)
    ensures
        r == is_identifier_char(c),
{
    identifier_start_char(c) || ('0' as u32 <= c as u32 && c as u32 <= '9' as u32)
}

fn source_char(c: char) -> (r: bool)
    ensures
        r == is_source_char(c),
{
    ('a' as u32 <= c as u32 && c as u32 <= 'z' as u32) || ('A' as u32 <= c as u32 && c as u32
        <= 'Z' as u32) || ('0' as u32 <= c as u32 && c as u32 <= '9' as u32)
}

fn keyword_char(c: char, k: char) -> (r: bool)
    ensures
        r == keyword_char_match(c, k),
{
    c == k || (c as u32) + 32 == (k as u32)
}

/// Advances over whitespace: returns the first position at or after `pos`
/// that holds none.
fn skip_spaces(input: &[char], pos: usize) -> (r: usize)
    requires
        pos <= input@.len(),
    ensures
        r as int == space_end(input@, pos as int),
        pos <= r <= input@.len(),
{
    let mut i = pos;
    while i < input.len() && space_char(input[i])
        invariant
            pos <= i <= input@.len(),
            space_end(input@, pos as int) == space_end(input@, i as int),
        decreases input@.len() - i,
    {
        i = i + 1;
    }
    i
}

/// The identifier rule: the longest prefix of `input` from `pos` shaped
/// `[A-Za-z_][A-Za-z0-9_]*`, as an owned string together with the first
/// unconsumed position. Fails, consuming nothing, when no such prefix
/// starts at `pos` — in particular at the end of the input.
pub fn name_identifier(input: &[char], pos: usize) -> (r: Option<(String, usize)>)
    requires
        pos <= input@.len(),
    ensures
        match match_identifier(input@, pos as int) {
            Some(end) => {
                &&& r is Some
                &&& r->Some_0.1 as int == end
                &&& r->Some_0.0@ == input@.subrange(pos as int, end)
            },
            None => r is None,
        },
{
    if pos < input.len() && identifier_start_char(input[pos]) {
        let mut text = String::new();
        push_char(&mut text, input[pos]);
        let mut i = pos + 1;
        proof {
            assert(text@ =~= input@.subrange(pos as int, pos + 1));
        }
        while i < input.len() && identifier_char(input[i])
            invariant
                pos + 1 <= i <= input@.len(),
                identifier_chars_end(input@, pos + 1) == identifier_chars_end(input@, i as int),
                text@ == input@.subrange(pos as int, i as int),
            decreases input@.len() - i,
        {
            push_char(&mut text, input[i]);
            proof {
                assert(text@ =~= input@.subrange(pos as int, i + 1));
            }
            i = i + 1;
        }
        Some((text, i))
    } else {
        None
    }
}

/// The statement-termination rule: consumes whitespace, at most one
/// semicolon, then whitespace again. It always succeeds; a zero-width match
/// returns `pos` itself.
pub fn statement_termination(input: &[char], pos: usize) -> (r: usize)
    requires
        pos <= input@.len(),
    ensures
        r as int == termination_end(input@, pos as int),
        pos <= r <= input@.len(),
{
    let a = skip_spaces(input, pos);
    let b = if a < input.len() && input[a] == ';' {
        a + 1
    } else {
        a
    };
    skip_spaces(input, b)
}

fn select_keyword_at(input: &[char], pos: usize) -> (r: bool)
    requires
        pos <= input@.len(),
    ensures
        r == matches_select_keyword(input@, pos as int),
{
    if input.len() - pos < 6 {
        return false;
    }
    keyword_char(input[pos], 's') && keyword_char(input[pos + 1], 'e') && keyword_char(
        input[pos + 2],
        'l',
    ) && keyword_char(input[pos + 3], 'e') && keyword_char(input[pos + 4], 'c') && keyword_char(
        input[pos + 5],
        't',
    )
}

fn from_keyword_at(input: &[char], pos: usize) -> (r: bool)
    requires
        pos <= input@.len(),
    ensures
        r == matches_from_keyword(input@, pos as int),
{
    if input.len() - pos < 4 {
        return false;
    }
    keyword_char(input[pos], 'f') && keyword_char(input[pos + 1], 'r') && keyword_char(
        input[pos + 2],
        'o',
    ) && keyword_char(input[pos + 3], 'm')
}

/// The column-list rule: one identifier, then as many further
/// whitespace-padded `, identifier` pairs as match. A trailing comma whose
/// identifier fails is left unconsumed (backtracking).
fn column_list(input: &[char], pos: usize) -> (r: Option<(Vec<String>, usize)>)
    requires
        pos <= input@.len(),
    ensures
        match match_columns(input@, pos as int) {
            Some(m) => {
                &&& r is Some
                &&& r->Some_0.0.deep_view() == m.0
                &&& r->Some_0.1 as int == m.1
            },
            None => r is None,
        },
{
    match name_identifier(input, pos) {
        None => None,
        Some((first, end)) => {
            let mut columns: Vec<String> = Vec::new();
            columns.push(first);
            let mut last_end = end;
            proof {
                lemma_identifier_chars_end_bounds(input@, pos + 1);
                assert(columns.deep_view() =~= seq![input@.subrange(pos as int, end as int)]);
            }
            loop
                invariant
                    pos < last_end <= input@.len(),
                    match_columns(input@, pos as int) matches Some(m) && m.0
                        == columns.deep_view() + match_more_columns(input@, last_end as int).0
                        && m.1 == match_more_columns(input@, last_end as int).1,
                ensures
                    last_end <= input@.len(),
                    match_columns(input@, pos as int) matches Some(m) && m.0
                        == columns.deep_view() && m.1 == last_end as int,
                decreases input@.len() - last_end,
            {
                let a = skip_spaces(input, last_end);
                if a < input.len() && input[a] == ',' {
                    let b = skip_spaces(input, a + 1);
                    match name_identifier(input, b) {
                        Some((text, e2)) => {
                            let ghost old_dv = columns.deep_view();
                            let ghost text_view = text@;
                            proof {
                                lemma_identifier_chars_end_bounds(input@, b + 1);
                                let tail = match_more_columns(input@, last_end as int);
                                let tail2 = match_more_columns(input@, e2 as int);
                                assert(tail.0 =~= seq![input@.subrange(b as int, e2 as int)]
                                    + tail2.0);
                                assert(old_dv + tail.0 =~= (old_dv.push(text_view)) + tail2.0);
                            }
                            columns.push(text);
                            proof {
                                assert(columns.deep_view() =~= old_dv.push(text_view));
                            }
                            last_end = e2;
                        },
                        None => {
                            proof {
                                assert(columns.deep_view() + match_more_columns(
                                    input@,
                                    last_end as int,
                                ).0 =~= columns.deep_view());
                            }
                            break ;
                        },
                    }
                } else {
                    proof {
                        assert(columns.deep_view() + match_more_columns(
                            input@,
                            last_end as int,
                        ).0 =~= columns.deep_view());
                    }
                    break ;
                }
            }
            Some((columns, last_end))
        },
    }
}

/// The select-statement rule: `SELECT`, mandatory whitespace, the column
/// list, mandatory whitespace, `FROM`, mandatory whitespace, a source name,
/// then the termination rule. Keywords match case-insensitively. Fails,
/// consuming nothing, when any part is absent.
pub fn select_query_data(input: &[char], pos: usize) -> (r: Option<(SelectQueryData, usize)>)
    requires
        pos <= input@.len(),
    ensures
        match match_select(input@, pos as int) {
            Some(m) => {
                &&& r is Some
                &&& r->Some_0.0@ == m.0
                &&& r->Some_0.1 as int == m.1
            },
            None => r is None,
        },
{
    let input_len = input.len();
    if !select_keyword_at(input, pos) {
        return None;
    }
    proof {
        assert(pos + 6 <= input_len);
    }
    let p1 = pos + 6;
    if !(p1 < input.len() && space_char(input[p1])) {
        return None;
    }
    let p2 = skip_spaces(input, p1);
    match column_list(input, p2) {
        None => None,
        Some((columns, p3)) => {
            if !(p3 < input.len() && space_char(input[p3])) {
                return None;
            }
            let p4 = skip_spaces(input, p3);
            if !from_keyword_at(input, p4) {
                return None;
            }
            let p5 = p4 + 4;
            if !(p5 < input.len() && space_char(input[p5])) {
                return None;
            }
            let p6 = skip_spaces(input, p5);
            if !(p6 < input.len() && source_char(input[p6])) {
                return None;
            }
            let mut source = String::new();
            push_char(&mut source, input[p6]);
            let mut i = p6 + 1;
            proof {
                assert(source@ =~= input@.subrange(p6 as int, p6 + 1));
            }
            while i < input.len() && source_char(input[i])
                invariant
                    p6 + 1 <= i <= input@.len(),
                    source_chars_end(input@, p6 + 1) == source_chars_end(input@, i as int),
                    source@ == input@.subrange(p6 as int, i as int),
                decreases input@.len() - i,
            {
                push_char(&mut source, input[i]);
                proof {
                    assert(source@ =~= input@.subrange(p6 as int, i + 1));
                }
                i = i + 1;
            }
            let p8 = statement_termination(input, i);
            let data = SelectQueryData { source, columns };
            proof {
                let m = match_select(input@, pos as int)->Some_0;
                assert(data@ =~= m.0);
            }
            Some((data, p8))
        },
    }
}

/// One statement: the one-of choice over the supported statement kinds.
pub fn select_query_statement(input: &[char], pos: usize) -> (r: Option<(Statement, usize)>)
    requires
        pos <= input@.len(),
    ensures
        match match_statement(input@, pos as int) {
            Some(m) => {
                &&& r is Some
                &&& r->Some_0.0@ == m.0
                &&& r->Some_0.1 as int == m.1
            },
            None => r is None,
        },
{
    match select_query_data(input, pos) {
        Some((data, end)) => Some((Statement::SelectQuery(data), end)),
        None => None,
    }
}

/// The repetition part of the document rule: statements from `pos` on, as
/// many as match, in source order, together with the position where no
/// further statement matches. It never fails.
pub fn many_statements(input: &[char], pos: usize) -> (r: (Vec<Statement>, usize))
    requires
        pos <= input@.len(),
    ensures
        r.0.deep_view() == match_statements(input@, pos as int).0,
        r.1 as int == match_statements(input@, pos as int).1,
        pos <= r.1 <= input@.len(),
{
    let mut statements: Vec<Statement> = Vec::new();
    let mut cur = pos;
    proof {
        assert(statements.deep_view() =~= Seq::<crate::syntax_tree::StatementView>::empty());
    }
    loop
        invariant
            pos <= cur <= input@.len(),
            match_statements(input@, pos as int).0 == statements.deep_view() + match_statements(
                input@,
                cur as int,
            ).0,
            match_statements(input@, pos as int).1 == match_statements(input@, cur as int).1,
        ensures
            pos <= cur <= input@.len(),
            match_statements(input@, pos as int).0 == statements.deep_view(),
            match_statements(input@, pos as int).1 == cur as int,
        decreases input@.len() - cur,
    {
        match select_query_statement(input, cur) {
            Some((st, p)) => {
                let ghost old_dv = statements.deep_view();
                let ghost st_view = st@;
                proof {
                    crate::grammar::lemma_match_select_bounds(input@, cur as int);
                    let tail = match_statements(input@, cur as int);
                    let tail2 = match_statements(input@, p as int);
                    assert(old_dv + tail.0 =~= old_dv.push(st_view) + tail2.0);
                }
                statements.push(st);
                proof {
                    assert(statements.deep_view() =~= old_dv.push(st_view));
                }
                cur = p;
            },
            None => {
                proof {
                    assert(statements.deep_view() + match_statements(input@, cur as int).0
                        =~= statements.deep_view());
                }
                break ;
            },
        }
    }
    (statements, cur)
}

/// The document rule: parses the whole input into a syntax tree, collecting
/// as many statements as match and ignoring any trailing text that forms no
/// statement. It always succeeds; the returned position is where the
/// unconsumed remainder begins. Empty input yields an empty tree.
pub fn syntax_tree(input: &[char]) -> (r: (SyntaxTree, usize))
    ensures
        r.0@ == match_document(input@).0,
        r.1 as int == match_document(input@).1,
        r.1 <= input@.len(),
{
    let (statements, end) = many_statements(input, 0);
    (SyntaxTree { statements }, end)
}

} // verus!
