use vstd::prelude::*;

verus! {

/// Mathematical value of one `SELECT` statement: the queried source name and
/// the projected column names, each a sequence of characters.
#[verifier::ext_equal]
pub struct SelectQueryView {
    pub source: Seq<char>,
    pub columns: Seq<Seq<char>>,
}

/// Mathematical value of one statement, a tagged variant per statement kind.
#[verifier::ext_equal]
pub enum StatementView {
    SelectQuery(SelectQueryView),
}

/// One parsed `SELECT` statement: the projected columns in source order
/// (duplicates permitted) and the queried source name.
#[derive(Debug)]
pub struct SelectQueryData {
    pub source: String,
    pub columns: Vec<String>,
}

impl View for SelectQueryData {
    type V = SelectQueryView;

    open spec fn view(&self) -> SelectQueryView {
        SelectQueryView { source: self.source@, columns: self.columns.deep_view() }
    }
}

impl DeepView for SelectQueryData {
    type V = SelectQueryView;

    open spec fn deep_view(&self) -> SelectQueryView {
        self.view()
    }
}

/// One recognized SQL command, a closed sum over the supported statement
/// kinds. New kinds grow as further variants.
pub enum Statement {
    SelectQuery(SelectQueryData),
}

impl View for Statement {
    type V = StatementView;

    open spec fn view(&self) -> StatementView {
        match self {
            Statement::SelectQuery(data) => StatementView::SelectQuery(data@),
        }
    }
}

impl DeepView for Statement {
    type V = StatementView;

    open spec fn deep_view(&self) -> StatementView {
        self.view()
    }
}

/// The root result of parsing a document: the recognized statements in
/// source order.
pub struct SyntaxTree {
    pub statements: Vec<Statement>,
}

impl View for SyntaxTree {
    type V = Seq<StatementView>;

    open spec fn view(&self) -> Seq<StatementView> {
        self.statements.deep_view()
    }
}

} // verus!
