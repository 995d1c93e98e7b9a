use dbms_rs::sql::name_identifier;
use dbms_rs::sql::select_query_data;
use dbms_rs::sql::select_query_statement;
use dbms_rs::sql::statement_termination;
use dbms_rs::sql::syntax_tree;
use dbms_rs::syntax_tree::Statement;

fn chars(text: &str) -> Vec<char> {
    text.chars().collect()
}

fn select_parts(statement: &Statement) -> (Vec<String>, String) {
    match statement {
        Statement::SelectQuery(data) => (data.columns.clone(), data.source.clone()),
    }
}

#[test]
fn identifier_matches_itself_exactly() {
    let input = chars("_col9");
    let (text, end) = name_identifier(&input, 0).expect("identifier expected");
    assert_eq!(text, "_col9");
    assert_eq!(end, input.len());
}

#[test]
fn identifier_stops_at_first_foreign_character() {
    let input = chars("abc_1 rest");
    let (text, end) = name_identifier(&input, 0).expect("identifier expected");
    assert_eq!(text, "abc_1");
    assert_eq!(end, 5);
}

#[test]
fn identifier_rejects_leading_digit() {
    let input = chars("9abc");
    assert!(name_identifier(&input, 0).is_none());
}

#[test]
fn identifier_rejects_empty_input() {
    let input = chars("");
    assert!(name_identifier(&input, 0).is_none());
}

#[test]
fn termination_consumes_spaces_and_semicolon() {
    let input = chars(" ; x");
    assert_eq!(statement_termination(&input, 0), 3);
}

#[test]
fn termination_succeeds_on_zero_width_match() {
    let empty = chars("");
    assert_eq!(statement_termination(&empty, 0), 0);
    let input = chars("x");
    assert_eq!(statement_termination(&input, 0), 0);
}

#[test]
fn termination_consumes_at_most_one_semicolon() {
    let input = chars(";; ");
    assert_eq!(statement_termination(&input, 0), 1);
}

#[test]
fn single_select_statement() {
    let input = chars("SELECT a FROM t");
    let (tree, end) = syntax_tree(&input);
    assert_eq!(tree.statements.len(), 1);
    let (columns, source) = select_parts(&tree.statements[0]);
    assert_eq!(columns, vec!["a".to_string()]);
    assert_eq!(source, "t");
    assert_eq!(end, input.len());
}

#[test]
fn mixed_case_keywords_spaced_commas_and_semicolon() {
    let input = chars("select a, b, c from T1;");
    let (tree, end) = syntax_tree(&input);
    assert_eq!(tree.statements.len(), 1);
    let (columns, source) = select_parts(&tree.statements[0]);
    assert_eq!(
        columns,
        vec!["a".to_string(), "b".to_string(), "c".to_string()]
    );
    assert_eq!(source, "T1");
    assert_eq!(end, input.len());
}

#[test]
fn two_statements_in_source_order() {
    let input = chars("SELECT a FROM t; SELECT x FROM y;");
    let (tree, _) = syntax_tree(&input);
    assert_eq!(tree.statements.len(), 2);
    let (first_columns, first_source) = select_parts(&tree.statements[0]);
    let (second_columns, second_source) = select_parts(&tree.statements[1]);
    assert_eq!(first_columns, vec!["a".to_string()]);
    assert_eq!(first_source, "t");
    assert_eq!(second_columns, vec!["x".to_string()]);
    assert_eq!(second_source, "y");
}

#[test]
fn empty_column_list_fails() {
    let input = chars("SELECT FROM t");
    assert!(select_query_data(&input, 0).is_none());
    let (tree, _) = syntax_tree(&input);
    assert_eq!(tree.statements.len(), 0);
}

#[test]
fn missing_whitespace_after_select_fails() {
    let input = chars("SELECTa FROM t");
    assert!(select_query_data(&input, 0).is_none());
    let (tree, _) = syntax_tree(&input);
    assert_eq!(tree.statements.len(), 0);
}

#[test]
fn missing_whitespace_before_source_fails() {
    let input = chars("SELECT a FROM;");
    assert!(select_query_data(&input, 0).is_none());
}

#[test]
fn empty_input_yields_empty_tree() {
    let input = chars("");
    let (tree, end) = syntax_tree(&input);
    assert_eq!(tree.statements.len(), 0);
    assert_eq!(end, 0);
}

#[test]
fn trailing_text_is_left_unconsumed() {
    let input = chars("SELECT a FROM t; garbage");
    let (tree, end) = syntax_tree(&input);
    assert_eq!(tree.statements.len(), 1);
    assert_eq!(end, 17);
    assert_eq!(input[end], 'g');
}

#[test]
fn duplicate_columns_are_permitted_in_order() {
    let input = chars("SELECT a,a FROM t");
    let (tree, _) = syntax_tree(&input);
    let (columns, _) = select_parts(&tree.statements[0]);
    assert_eq!(columns, vec!["a".to_string(), "a".to_string()]);
}

#[test]
fn statement_rule_wraps_select_data() {
    let input = chars("SELECT a FROM t");
    let (statement, end) = select_query_statement(&input, 0).expect("statement expected");
    let (columns, source) = select_parts(&statement);
    assert_eq!(columns, vec!["a".to_string()]);
    assert_eq!(source, "t");
    assert_eq!(end, input.len());
}

#[test]
fn dangling_comma_swallows_from_and_fails() {
    // after the comma the identifier rule matches the text `FROM` as a
    // column name, so no FROM keyword is left and the statement fails
    let input = chars("SELECT a, FROM t");
    assert!(select_query_data(&input, 0).is_none());
    let (tree, _) = syntax_tree(&input);
    assert_eq!(tree.statements.len(), 0);
}

#[test]
fn reconstruction_reparses_to_equal_statement() {
    let input = chars("select col_1 , col2 from tbl ;");
    let (tree, _) = syntax_tree(&input);
    assert_eq!(tree.statements.len(), 1);
    let (columns, source) = select_parts(&tree.statements[0]);
    let reconstruction = format!("SELECT {} FROM {};", columns.join(","), source);
    let again = chars(&reconstruction);
    let (tree_again, end) = syntax_tree(&again);
    assert_eq!(tree_again.statements.len(), 1);
    let (columns_again, source_again) = select_parts(&tree_again.statements[0]);
    assert_eq!(columns_again, columns);
    assert_eq!(source_again, source);
    assert_eq!(end, again.len());
}
