//! Textual forms: of integers, of syntax trees (every prefix and infix
//! expression in parentheses), and of runtime values.
use vstd::prelude::*;

use crate::expression::{
    exprs_model, lemma_exprs_model_len, names_of, ExprModel, Expression, Identifier,
};
use crate::object::{Object, Value};
use crate::parser::{kind_name, kind_text};
use crate::program::Program;
use crate::statement::{lemma_stmts_model_len, stmts_model, Statement, StmtModel};

verus! {

pub open spec fn digit_char(d: nat) -> char {
    if d == 0 {
        '0'
    } else if d == 1 {
        '1'
    } else if d == 2 {
        '2'
    } else if d == 3 {
        '3'
    } else if d == 4 {
        '4'
    } else if d == 5 {
        '5'
    } else if d == 6 {
        '6'
    } else if d == 7 {
        '7'
    } else if d == 8 {
        '8'
    } else {
        '9'
    }
}

/// The decimal digits of `n`, most significant first.
pub open spec fn decimal_text(n: nat) -> Seq<char>
    decreases n,
{
    if n < 10 {
        seq![digit_char(n)]
    } else {
        decimal_text(n / 10) + seq![digit_char(n % 10)]
    }
}

/// The decimal form of an integer, with a leading `-` if it is negative.
pub open spec fn int_text(n: int) -> Seq<char> {
    if n < 0 {
        seq!['-'] + decimal_text((-n) as nat)
    } else {
        decimal_text(n as nat)
    }
}

fn digit_str(d: u64) -> (r: &'static str)
    requires
        d < 10,
    ensures
        r@ == seq![digit_char(d as nat)],
{
    proof {
        reveal_strlit("0");
        reveal_strlit("1");
        reveal_strlit("2");
        reveal_strlit("3");
        reveal_strlit("4");
        reveal_strlit("5");
        reveal_strlit("6");
        reveal_strlit("7");
        reveal_strlit("8");
        reveal_strlit("9");
    }
    if d == 0 {
        "0"
    } else if d == 1 {
        "1"
    } else if d == 2 {
        "2"
    } else if d == 3 {
        "3"
    } else if d == 4 {
        "4"
    } else if d == 5 {
        "5"
    } else if d == 6 {
        "6"
    } else if d == 7 {
        "7"
    } else if d == 8 {
        "8"
    } else {
        "9"
    }
}

fn decimal_string(n: u64) -> (r: String)
    ensures
        r@ == decimal_text(n as nat),
    decreases n,
{
    if n < 10 {
        String::from_str(digit_str(n))
    } else {
        let mut s = decimal_string(n / 10);
        s.append(digit_str(n % 10));
        s
    }
}

/// The decimal form of `n`.
pub fn int_to_string(n: i64) -> (r: String)
    ensures
        r@ == int_text(n as int),
{
    proof {
        reveal_strlit("-");
    }
    if n < 0 {
        let magnitude: u64 = (-(n as i128)) as u64;
        let mut s = String::from_str("-");
        s.append(decimal_string(magnitude).as_str());
        s
    } else {
        decimal_string(n as u64)
    }
}

/// Texts joined with `sep` between them.
pub open spec fn join(parts: Seq<Seq<char>>, sep: Seq<char>) -> Seq<char>
    decreases parts.len(),
{
    if parts.len() == 0 {
        seq![]
    } else if parts.len() == 1 {
        parts[0]
    } else {
        join(parts.drop_last(), sep) + sep + parts.last()
    }
}

/// The text of an expression; every prefix and infix expression is in parentheses.
pub open spec fn expr_text(e: ExprModel) -> Seq<char>
    decreases e,
{
    match e {
        ExprModel::Ident(name) => name,
        ExprModel::Int(n) => int_text(n as int),
        ExprModel::Bool(b) => if b {
            "true"@
        } else {
            "false"@
        },
        ExprModel::Prefix(op, right) => "("@ + kind_text(op) + expr_text(*right) + ")"@,
        ExprModel::Infix(op, left, right) => "("@ + expr_text(*left) + " "@ + kind_text(op) + " "@
            + expr_text(*right) + ")"@,
        ExprModel::If(cond, cons, alt) => "if ("@ + expr_text(*cond) + ") { "@ + stmts_text(cons)
            + " }"@ + match alt {
            Some(a) => " else { "@ + stmts_text(a) + " }"@,
            None => seq![],
        },
        ExprModel::Func(params, body) => "fn("@ + join(params, ", "@) + ") { "@ + stmts_text(body)
            + " }"@,
        ExprModel::Call(callee, args) => expr_text(*callee) + "("@ + exprs_text(args) + ")"@,
    }
}

/// The texts of call arguments, separated by commas.
pub open spec fn exprs_text(es: Seq<ExprModel>) -> Seq<char>
    decreases es,
{
    if es.len() == 0 {
        seq![]
    } else if es.len() == 1 {
        expr_text(es[0])
    } else {
        exprs_text(es.drop_last()) + ", "@ + expr_text(es.last())
    }
}

/// The text of a statement.
pub open spec fn stmt_text(s: StmtModel) -> Seq<char>
    decreases s,
{
    match s {
        StmtModel::Let(name, value) => "let "@ + name + " = "@ + expr_text(value) + ";"@,
        StmtModel::Return(value) => "return "@ + expr_text(value) + ";"@,
        StmtModel::Expr(value) => expr_text(value),
        StmtModel::Block(stmts) => stmts_text(stmts),
    }
}

/// The texts of statements, separated by spaces.
pub open spec fn stmts_text(ss: Seq<StmtModel>) -> Seq<char>
    decreases ss,
{
    if ss.len() == 0 {
        seq![]
    } else if ss.len() == 1 {
        stmt_text(ss[0])
    } else {
        stmts_text(ss.drop_last()) + " "@ + stmt_text(ss.last())
    }
}

/// The names of parameters, separated by commas.
fn parameters_string(ps: &Vec<Identifier>) -> (r: String)
    ensures
        r@ == join(names_of(ps@), ", "@),
{
    let mut s = String::new();
    let mut i: usize = 0;
    while i < ps.len()
        invariant
            i <= ps@.len(),
            s@ == join(names_of(ps@.subrange(0, i as int)), ", "@),
        decreases ps@.len() - i,
    {
        if i > 0 {
            s.append(", ");
        }
        s.append(ps[i].token.literal.as_str());
        i = i + 1;
        assert(names_of(ps@.subrange(0, i as int)).drop_last() =~= names_of(
            ps@.subrange(0, i - 1),
        ));
    }
    assert(ps@.subrange(0, ps@.len() as int) =~= ps@);
    s
}

impl Expression {
    /// The text of this expression, with every prefix and infix expression in parentheses.
    pub fn to_string(&self) -> (r: String)
        ensures
            r@ == expr_text(self.model()),
        decreases self,
    {
        match self {
            Expression::Identifier(i) => i.token.literal.clone(),
            Expression::IntegerLiteral(i) => int_to_string(i.value),
            Expression::Boolean(b) => if b.value {
                String::from_str("true")
            } else {
                String::from_str("false")
            },
            Expression::Prefix(p) => {
                let mut s = String::from_str("(");
                s.append(kind_name(p.token.kind));
                s.append(p.right.to_string().as_str());
                s.append(")");
                s
            },
            Expression::Infix(i) => {
                let mut s = String::from_str("(");
                s.append(i.left.to_string().as_str());
                s.append(" ");
                s.append(kind_name(i.token.kind));
                s.append(" ");
                s.append(i.right.to_string().as_str());
                s.append(")");
                s
            },
            Expression::If(i) => {
                let mut s = String::from_str("if (");
                s.append(i.condition.to_string().as_str());
                s.append(") { ");
                s.append(statements_string(&i.consequence.statements).as_str());
                s.append(" }");
                match &i.alternative {
                    Some(a) => {
                        s.append(" else { ");
                        s.append(statements_string(&a.statements).as_str());
                        s.append(" }");
                    },
                    None => {},
                }
                s
            },
            Expression::FunctionLiteral(f) => {
                let mut s = String::from_str("fn(");
                s.append(parameters_string(&f.parameters).as_str());
                s.append(") { ");
                s.append(statements_string(&f.body.statements).as_str());
                s.append(" }");
                s
            },
            Expression::Call(c) => {
                let mut s = c.function.to_string();
                s.append("(");
                s.append(expressions_string(&c.arguments).as_str());
                s.append(")");
                s
            },
        }
    }
}

/// The texts of expressions, separated by commas.
fn expressions_string(es: &Vec<Expression>) -> (r: String)
    ensures
        r@ == exprs_text(exprs_model(es@)),
    decreases es@,
{
    let mut s = String::new();
    let mut i: usize = 0;
    proof {
        lemma_exprs_model_len(es@);
    }
    while i < es.len()
        invariant
            i <= es@.len(),
            s@ == exprs_text(exprs_model(es@.subrange(0, i as int))),
        decreases es@.len() - i,
    {
        proof {
            assert(decreases_to!(es@ => es@[i as int]));
        }
        if i > 0 {
            s.append(", ");
        }
        s.append(es[i].to_string().as_str());
        i = i + 1;
        proof {
            let prefix = es@.subrange(0, i as int);
            assert(prefix.drop_last() =~= es@.subrange(0, i - 1));
            lemma_exprs_model_len(prefix);
            lemma_exprs_model_len(prefix.drop_last());
            let m = exprs_model(prefix);
            assert(m.drop_last() =~= exprs_model(es@.subrange(0, i - 1)));
            assert(m.last() == es@[i - 1].model());
        }
    }
    assert(es@.subrange(0, es@.len() as int) =~= es@);
    s
}

/// The texts of statements, separated by spaces.
fn statements_string(ss: &Vec<Statement>) -> (r: String)
    ensures
        r@ == stmts_text(stmts_model(ss@)),
    decreases ss@,
{
    let mut s = String::new();
    let mut i: usize = 0;
    proof {
        lemma_stmts_model_len(ss@);
    }
    while i < ss.len()
        invariant
            i <= ss@.len(),
            s@ == stmts_text(stmts_model(ss@.subrange(0, i as int))),
        decreases ss@.len() - i,
    {
        proof {
            assert(decreases_to!(ss@ => ss@[i as int]));
        }
        if i > 0 {
            s.append(" ");
        }
        s.append(ss[i].to_string().as_str());
        i = i + 1;
        proof {
            let prefix = ss@.subrange(0, i as int);
            assert(prefix.drop_last() =~= ss@.subrange(0, i - 1));
            lemma_stmts_model_len(prefix);
            lemma_stmts_model_len(prefix.drop_last());
            let m = stmts_model(prefix);
            assert(m.drop_last() =~= stmts_model(ss@.subrange(0, i - 1)));
            assert(m.last() == ss@[i - 1].model());
        }
    }
    assert(ss@.subrange(0, ss@.len() as int) =~= ss@);
    s
}

impl Statement {
    /// The text of this statement.
    pub fn to_string(&self) -> (r: String)
        ensures
            r@ == stmt_text(self.model()),
        decreases self,
    {
        match self {
            Statement::Let(l) => {
                let mut s = String::from_str("let ");
                s.append(l.name.token.literal.as_str());
                s.append(" = ");
                s.append(l.value.to_string().as_str());
                s.append(";");
                s
            },
            Statement::Return(r) => {
                let mut s = String::from_str("return ");
                s.append(r.value.to_string().as_str());
                s.append(";");
                s
            },
            Statement::Expression(e) => e.expression.to_string(),
            Statement::Block(b) => statements_string(&b.statements),
        }
    }
}

impl Program {
    /// The text of the program's statements, separated by spaces.
    pub fn to_string(&self) -> (r: String)
        ensures
            r@ == stmts_text(self.model()),
    {
        statements_string(&self.statements)
    }
}

/// The printed form of a value.
pub open spec fn value_text(v: Value) -> Seq<char>
    decreases v,
{
    match v {
        Value::Int(n) => int_text(n as int),
        Value::Bool(b) => if b {
            "true"@
        } else {
            "false"@
        },
        Value::Null => "null"@,
        Value::Func(..) => "function"@,
        Value::Error(m) => "ERROR: "@ + m,
        Value::Ret(inner) => value_text(*inner),
    }
}

impl Object {
    /// The printed form of this value.
    pub fn to_string(&self) -> (r: String)
        ensures
            r@ == value_text(self.model()),
        decreases self,
    {
        match self {
            Object::Integer(i) => int_to_string(i.value),
            Object::Boolean(b) => if b.value {
                String::from_str("true")
            } else {
                String::from_str("false")
            },
            Object::Null(_) => String::from_str("null"),
            Object::Function(_) => String::from_str("function"),
            Object::Error(e) => {
                let mut s = String::from_str("ERROR: ");
                s.append(e.message.as_str());
                s
            },
            Object::Return(r) => r.value.to_string(),
        }
    }
}

} // verus!
