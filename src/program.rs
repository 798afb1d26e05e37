use vstd::prelude::*;

use crate::statement::{stmts_model, Statement, StmtModel};

verus! {

/// A parsed program: its statements and the messages of the statements that failed to parse.
#[derive(Debug)]
pub struct Program {
    pub statements: Vec<Statement>,
    pub errors: Vec<String>,
}

/// The texts of a list of strings.
pub open spec fn texts(ss: Seq<String>) -> Seq<Seq<char>> {
    ss.map_values(|s: String| s@)
}

impl Program {
    /// The statements as trees.
    pub open spec fn model(&self) -> Seq<StmtModel> {
        stmts_model(self.statements@)
    }

    /// A program with no statements and no errors.
    pub fn new() -> (r: Program)
        ensures
            r.statements@.len() == 0,
            r.errors@.len() == 0,
    {
        Program { statements: Vec::new(), errors: Vec::new() }
    }

    pub fn errors(&self) -> (r: &Vec<String>)
        ensures
            r == &self.errors,
    {
        &self.errors
    }
}

} // verus!
