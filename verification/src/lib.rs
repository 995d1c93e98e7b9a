//! A small SQL front end: grammar rules that turn raw text into a syntax
//! tree of `SELECT` statements. The grammar is stated as specification
//! functions over character sequences, and every executable rule is proved
//! to recognize exactly the language those functions describe.

pub mod grammar;
pub mod laws;
pub mod sql;
pub mod syntax_tree;
