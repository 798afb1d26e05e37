use vstd::prelude::*;

use crate::expression::Expression;
use crate::program::Program;
use crate::statement::Statement;

verus! {

/// Any node of a syntax tree: a whole program, a statement or an expression.
#[derive(Debug)]
pub enum Node {
    Program(Program),
    Statement(Statement),
    Expression(Expression),
}

impl Node {
    /// The program inside, or `None` for another kind of node.
    pub fn into_program(self) -> (r: Option<Program>)
        ensures
            match self {
                Node::Program(p) => r == Some(p),
                _ => r is None,
            },
    {
        match self {
            Node::Program(p) => Some(p),
            _ => None,
        }
    }

    /// The program inside a node that holds one.
    pub fn into_program_unchecked(self) -> (r: Program)
        requires
            self is Program,
        ensures
            self == Node::Program(r),
    {
        match self {
            Node::Program(p) => p,
            _ => Program::new(),
        }
    }

    /// The statement inside, or `None` for another kind of node.
    pub fn into_statement(self) -> (r: Option<Statement>)
        ensures
            match self {
                Node::Statement(s) => r == Some(s),
                _ => r is None,
            },
    {
        match self {
            Node::Statement(s) => Some(s),
            _ => None,
        }
    }

    /// The statement inside a node that holds one.
    pub fn into_statement_unchecked(self) -> (r: Statement)
        requires
            self is Statement,
        ensures
            self == Node::Statement(r),
    {
        match self {
            Node::Statement(s) => s,
            _ => Statement::Block(crate::statement::Block { statements: Vec::new() }),
        }
    }

    /// The expression inside, or `None` for another kind of node.
    pub fn into_expression(self) -> (r: Option<Expression>)
        ensures
            match self {
                Node::Expression(e) => r == Some(e),
                _ => r is None,
            },
    {
        match self {
            Node::Expression(e) => Some(e),
            _ => None,
        }
    }

    /// The expression inside a node that holds one.
    pub fn into_expression_unchecked(self) -> (r: Expression)
        requires
            self is Expression,
        ensures
            self == Node::Expression(r),
    {
        match self {
            Node::Expression(e) => e,
            _ => Expression::IntegerLiteral(crate::expression::IntegerLiteral { value: 0 }),
        }
    }
}

} // verus!
