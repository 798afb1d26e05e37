use vstd::prelude::*;

use crate::statement::{Block, StmtModel};
use crate::token::{Token, TokenKind};

verus! {

/// The mathematical model of an expression: the tree without token text.
pub enum ExprModel {
    Ident(Seq<char>),
    Int(i64),
    Bool(bool),
    Prefix(TokenKind, Box<ExprModel>),
    Infix(TokenKind, Box<ExprModel>, Box<ExprModel>),
    If(Box<ExprModel>, Seq<StmtModel>, Option<Seq<StmtModel>>),
    Func(Seq<Seq<char>>, Seq<StmtModel>),
    Call(Box<ExprModel>, Seq<ExprModel>),
}

/// An expression of the language.
#[derive(Debug)]
pub enum Expression {
    Identifier(Identifier),
    IntegerLiteral(IntegerLiteral),
    Prefix(Prefix),
    Infix(Infix),
    Boolean(Boolean),
    If(If),
    FunctionLiteral(FunctionLiteral),
    Call(Call),
}

/// A name, read from an identifier token.
#[derive(Debug)]
pub struct Identifier {
    pub token: Token,
}

#[derive(Debug)]
pub struct IntegerLiteral {
    pub value: i64,
}

/// A unary operator (`!` or `-`) applied to an operand.
#[derive(Debug)]
pub struct Prefix {
    pub token: Token,
    pub right: Box<Expression>,
}

/// A binary operator applied to two operands.
#[derive(Debug)]
pub struct Infix {
    pub token: Token,
    pub left: Box<Expression>,
    pub right: Box<Expression>,
}

#[derive(Debug)]
pub struct Boolean {
    pub token: Token,
    pub value: bool,
}

/// `if (condition) { consequence } else { alternative }`, the `else` part optional.
#[derive(Debug)]
pub struct If {
    pub condition: Box<Expression>,
    pub consequence: Block,
    pub alternative: Option<Block>,
}

/// `fn (parameters) { body }`.
#[derive(Debug)]
pub struct FunctionLiteral {
    pub token: Token,
    pub parameters: Vec<Identifier>,
    pub body: Block,
}

/// `function(arguments)`.
#[derive(Debug)]
pub struct Call {
    pub token: Token,
    pub function: Box<Expression>,
    pub arguments: Vec<Expression>,
}

impl Identifier {
    pub open spec fn name(&self) -> Seq<char> {
        self.token.literal@
    }

    pub fn new(token: Token) -> (r: Identifier)
        ensures
            r.token == token,
    {
        Identifier { token }
    }

    pub fn token(&self) -> (r: &Token)
        ensures
            r == &self.token,
    {
        &self.token
    }
}

impl IntegerLiteral {
    pub fn new(value: i64) -> (r: IntegerLiteral)
        ensures
            r.value == value,
    {
        IntegerLiteral { value }
    }

    pub fn value(&self) -> (r: i64)
        ensures
            r == self.value,
    {
        self.value
    }
}

impl Prefix {
    pub fn new(token: Token, right: Box<Expression>) -> (r: Prefix)
        ensures
            r.token == token,
            r.right == right,
    {
        Prefix { token, right }
    }

    pub fn token(&self) -> (r: &Token)
        ensures
            r == &self.token,
    {
        &self.token
    }

    pub fn right(&self) -> (r: &Expression)
        ensures
            r == &*self.right,
    {
        &self.right
    }
}

impl Infix {
    pub fn new(token: Token, left: Box<Expression>, right: Box<Expression>) -> (r: Infix)
        ensures
            r.token == token,
            r.left == left,
            r.right == right,
    {
        Infix { token, left, right }
    }

    pub fn token(&self) -> (r: &Token)
        ensures
            r == &self.token,
    {
        &self.token
    }

    pub fn left(&self) -> (r: &Expression)
        ensures
            r == &*self.left,
    {
        &self.left
    }

    pub fn right(&self) -> (r: &Expression)
        ensures
            r == &*self.right,
    {
        &self.right
    }
}

impl Boolean {
    pub fn new(token: Token, value: bool) -> (r: Boolean)
        ensures
            r.token == token,
            r.value == value,
    {
        Boolean { token, value }
    }

    pub fn token(&self) -> (r: &Token)
        ensures
            r == &self.token,
    {
        &self.token
    }

    pub fn value(&self) -> (r: bool)
        ensures
            r == self.value,
    {
        self.value
    }
}

impl If {
    pub fn new(condition: Box<Expression>, consequence: Block, alternative: Option<Block>) -> (r:
        If)
        ensures
            r.condition == condition,
            r.consequence == consequence,
            r.alternative == alternative,
    {
        If { condition, consequence, alternative }
    }
}

impl FunctionLiteral {
    pub fn new(token: Token, parameters: Vec<Identifier>, body: Block) -> (r: FunctionLiteral)
        ensures
            r.token == token,
            r.parameters == parameters,
            r.body == body,
    {
        FunctionLiteral { token, parameters, body }
    }

    pub fn token(&self) -> (r: &Token)
        ensures
            r == &self.token,
    {
        &self.token
    }

    pub fn parameters(&self) -> (r: &Vec<Identifier>)
        ensures
            r == &self.parameters,
    {
        &self.parameters
    }

    pub fn body(&self) -> (r: &Block)
        ensures
            r == &self.body,
    {
        &self.body
    }
}

impl Call {
    pub fn new(token: Token, function: Box<Expression>, arguments: Vec<Expression>) -> (r: Call)
        ensures
            r.token == token,
            r.function == function,
            r.arguments == arguments,
    {
        Call { token, function, arguments }
    }
}

/// The names of a list of identifiers.
pub open spec fn names_of(ids: Seq<Identifier>) -> Seq<Seq<char>> {
    ids.map_values(|i: Identifier| i.name())
}

/// The models of a list of expressions.
pub open spec fn exprs_model(es: Seq<Expression>) -> Seq<ExprModel>
    decreases es,
{
    if es.len() == 0 {
        seq![]
    } else {
        exprs_model(es.drop_last()).push(es.last().model())
    }
}

impl Expression {
    /// The tree this expression stands for.
    pub open spec fn model(&self) -> ExprModel
        decreases self,
    {
        match self {
            Expression::Identifier(i) => ExprModel::Ident(i.name()),
            Expression::IntegerLiteral(i) => ExprModel::Int(i.value),
            Expression::Boolean(b) => ExprModel::Bool(b.value),
            Expression::Prefix(p) => ExprModel::Prefix(p.token.kind, Box::new(p.right.model())),
            Expression::Infix(i) => ExprModel::Infix(
                i.token.kind,
                Box::new(i.left.model()),
                Box::new(i.right.model()),
            ),
            Expression::If(i) => ExprModel::If(
                Box::new(i.condition.model()),
                crate::statement::stmts_model(i.consequence.statements@),
                match i.alternative {
                    Some(b) => Some(crate::statement::stmts_model(b.statements@)),
                    None => None,
                },
            ),
            Expression::FunctionLiteral(f) => ExprModel::Func(
                names_of(f.parameters@),
                crate::statement::stmts_model(f.body.statements@),
            ),
            Expression::Call(c) => ExprModel::Call(
                Box::new(c.function.model()),
                exprs_model(c.arguments@),
            ),
        }
    }
}

pub proof fn lemma_exprs_model_index(es: Seq<Expression>, i: int)
    requires
        0 <= i < es.len(),
    ensures
        exprs_model(es).len() == es.len(),
        exprs_model(es)[i] == es[i].model(),
    decreases es.len(),
{
    if i < es.len() - 1 {
        lemma_exprs_model_index(es.drop_last(), i);
    } else {
        lemma_exprs_model_len(es.drop_last());
    }
}

pub proof fn lemma_exprs_model_len(es: Seq<Expression>)
    ensures
        exprs_model(es).len() == es.len(),
    decreases es.len(),
{
    if es.len() > 0 {
        lemma_exprs_model_len(es.drop_last());
    }
}

impl Identifier {
    /// A copy of this identifier.
    pub fn duplicate(&self) -> (r: Identifier)
        ensures
            r.token == self.token,
    {
        Identifier { token: self.token.duplicate() }
    }
}

/// A copy of a list of identifiers.
pub fn duplicate_identifiers(ids: &Vec<Identifier>) -> (r: Vec<Identifier>)
    ensures
        names_of(r@) == names_of(ids@),
{
    let mut out: Vec<Identifier> = Vec::new();
    let mut i: usize = 0;
    while i < ids.len()
        invariant
            i <= ids@.len(),
            out@.len() == i,
            forall|k: int| 0 <= k < i ==> #[trigger] out@[k].name() == ids@[k].name(),
        decreases ids@.len() - i,
    {
        out.push(ids[i].duplicate());
        i = i + 1;
    }
    assert(names_of(out@) =~= names_of(ids@));
    out
}

impl Expression {
    /// A copy of this expression.
    pub fn duplicate(&self) -> (r: Expression)
        ensures
            r.model() == self.model(),
        decreases self,
    {
        match self {
            Expression::Identifier(i) => Expression::Identifier(i.duplicate()),
            Expression::IntegerLiteral(i) => Expression::IntegerLiteral(
                IntegerLiteral { value: i.value },
            ),
            Expression::Boolean(b) => Expression::Boolean(
                Boolean { token: b.token.duplicate(), value: b.value },
            ),
            Expression::Prefix(p) => Expression::Prefix(
                Prefix { token: p.token.duplicate(), right: Box::new(p.right.duplicate()) },
            ),
            Expression::Infix(i) => Expression::Infix(
                Infix {
                    token: i.token.duplicate(),
                    left: Box::new(i.left.duplicate()),
                    right: Box::new(i.right.duplicate()),
                },
            ),
            Expression::If(i) => {
                let alternative = match &i.alternative {
                    Some(b) => Some(b.duplicate()),
                    None => None,
                };
                Expression::If(
                    If {
                        condition: Box::new(i.condition.duplicate()),
                        consequence: i.consequence.duplicate(),
                        alternative,
                    },
                )
            },
            Expression::FunctionLiteral(f) => Expression::FunctionLiteral(
                FunctionLiteral {
                    token: f.token.duplicate(),
                    parameters: duplicate_identifiers(&f.parameters),
                    body: f.body.duplicate(),
                },
            ),
            Expression::Call(c) => Expression::Call(
                Call {
                    token: c.token.duplicate(),
                    function: Box::new(c.function.duplicate()),
                    arguments: duplicate_expressions(&c.arguments),
                },
            ),
        }
    }
}

/// A copy of a list of expressions.
pub fn duplicate_expressions(es: &Vec<Expression>) -> (r: Vec<Expression>)
    ensures
        exprs_model(r@) == exprs_model(es@),
    decreases es@,
{
    let mut out: Vec<Expression> = Vec::new();
    let mut i: usize = 0;
    while i < es.len()
        invariant
            i <= es@.len(),
            exprs_model(out@) == exprs_model(es@.subrange(0, i as int)),
        decreases es@.len() - i,
    {
        proof {
            lemma_exprs_model_index(es@, i as int);
            assert(decreases_to!(es@ => es@[i as int]));
        }
        let e = es[i].duplicate();
        let ghost before = out@;
        out.push(e);
        i = i + 1;
        assert(out@.drop_last() =~= before);
        assert(es@.subrange(0, i as int).drop_last() =~= es@.subrange(0, i - 1));
    }
    assert(es@.subrange(0, es@.len() as int) =~= es@);
    out
}

} // verus!
