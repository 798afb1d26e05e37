use vstd::prelude::*;

use crate::expression::{self, ExprModel, Identifier};

verus! {

/// The mathematical model of a statement.
pub enum StmtModel {
    Let(Seq<char>, ExprModel),
    Return(ExprModel),
    Expr(ExprModel),
    Block(Seq<StmtModel>),
}

/// A statement of the language.
#[derive(Debug)]
pub enum Statement {
    Let(Let),
    Return(Return),
    Expression(Expression),
    Block(Block),
}

/// `let name = value;`
#[derive(Debug)]
pub struct Let {
    pub name: Identifier,
    pub value: expression::Expression,
}

/// `return value;`
#[derive(Debug)]
pub struct Return {
    pub value: expression::Expression,
}

/// An expression used as a statement.
#[derive(Debug)]
pub struct Expression {
    pub expression: expression::Expression,
}

/// A sequence of statements between braces.
#[derive(Debug)]
pub struct Block {
    pub statements: Vec<Statement>,
}

impl Let {
    pub fn new(name: Identifier, value: expression::Expression) -> (r: Let)
        ensures
            r.name == name,
            r.value == value,
    {
        Let { name, value }
    }

    pub fn name(&self) -> (r: &Identifier)
        ensures
            r == &self.name,
    {
        &self.name
    }
}

impl Return {
    pub fn new(value: expression::Expression) -> (r: Return)
        ensures
            r.value == value,
    {
        Return { value }
    }
}

impl Expression {
    pub fn new(expression: expression::Expression) -> (r: Expression)
        ensures
            r.expression == expression,
    {
        Expression { expression }
    }
}

impl Block {
    pub fn new(statements: Vec<Statement>) -> (r: Block)
        ensures
            r.statements == statements,
    {
        Block { statements }
    }
}

/// The models of a list of statements.
pub open spec fn stmts_model(ss: Seq<Statement>) -> Seq<StmtModel>
    decreases ss,
{
    if ss.len() == 0 {
        seq![]
    } else {
        stmts_model(ss.drop_last()).push(ss.last().model())
    }
}

impl Statement {
    /// The statement this value stands for.
    pub open spec fn model(&self) -> StmtModel
        decreases self,
    {
        match self {
            Statement::Let(l) => StmtModel::Let(l.name.name(), l.value.model()),
            Statement::Return(r) => StmtModel::Return(r.value.model()),
            Statement::Expression(e) => StmtModel::Expr(e.expression.model()),
            Statement::Block(b) => StmtModel::Block(stmts_model(b.statements@)),
        }
    }
}

pub proof fn lemma_stmts_model_index(ss: Seq<Statement>, i: int)
    requires
        0 <= i < ss.len(),
    ensures
        stmts_model(ss).len() == ss.len(),
        stmts_model(ss)[i] == ss[i].model(),
    decreases ss.len(),
{
    if i < ss.len() - 1 {
        lemma_stmts_model_index(ss.drop_last(), i);
    } else {
        lemma_stmts_model_len(ss.drop_last());
    }
}

pub proof fn lemma_stmts_model_len(ss: Seq<Statement>)
    ensures
        stmts_model(ss).len() == ss.len(),
    decreases ss.len(),
{
    if ss.len() > 0 {
        lemma_stmts_model_len(ss.drop_last());
    }
}

impl Block {
    /// A copy of this block.
    pub fn duplicate(&self) -> (r: Block)
        ensures
            stmts_model(r.statements@) == stmts_model(self.statements@),
        decreases self,
    {
        let mut out: Vec<Statement> = Vec::new();
        let mut i: usize = 0;
        while i < self.statements.len()
            invariant
                i <= self.statements@.len(),
                stmts_model(out@) == stmts_model(self.statements@.subrange(0, i as int)),
            decreases self.statements@.len() - i,
        {
            proof {
                assert(decreases_to!(self => self.statements));
                assert(decreases_to!(self.statements => self.statements@));
                assert(decreases_to!(self.statements@ => self.statements@[i as int]));
            }
            let s = self.statements[i].duplicate();
            let ghost before = out@;
            out.push(s);
            i = i + 1;
            assert(out@.drop_last() =~= before);
            assert(self.statements@.subrange(0, i as int).drop_last() =~= self.statements@.subrange(
                0,
                i - 1,
            ));
        }
        assert(self.statements@.subrange(0, self.statements@.len() as int) =~= self.statements@);
        Block { statements: out }
    }
}

impl Statement {
    /// A copy of this statement.
    pub fn duplicate(&self) -> (r: Statement)
        ensures
            r.model() == self.model(),
        decreases self,
    {
        match self {
            Statement::Let(l) => Statement::Let(
                Let { name: l.name.duplicate(), value: l.value.duplicate() },
            ),
            Statement::Return(r) => Statement::Return(Return { value: r.value.duplicate() }),
            Statement::Expression(e) => Statement::Expression(
                Expression { expression: e.expression.duplicate() },
            ),
            Statement::Block(b) => Statement::Block(b.duplicate()),
        }
    }
}

} // verus!
