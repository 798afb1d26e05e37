//! Structural equality of syntax trees and runtime values, as their models see it.
use vstd::prelude::*;

use crate::environment::{
    bindings_model, lemma_bindings_model_index, lemma_bindings_model_len, Environment,
};
use crate::expression::{
    exprs_model, lemma_exprs_model_index, lemma_exprs_model_len, names_of, Expression, Identifier,
};
use crate::object::Object;
use crate::statement::{lemma_stmts_model_index, lemma_stmts_model_len, stmts_model, Statement};

verus! {

/// Whether two lists of identifiers have the same names.
pub fn names_equal(a: &Vec<Identifier>, b: &Vec<Identifier>) -> (r: bool)
    ensures
        r == (names_of(a@) == names_of(b@)),
{
    if a.len() != b.len() {
        assert(names_of(a@).len() != names_of(b@).len());
        return false;
    }
    let mut i: usize = 0;
    while i < a.len()
        invariant
            a@.len() == b@.len(),
            i <= a@.len(),
            forall|k: int| 0 <= k < i ==> #[trigger] a@[k].name() == b@[k].name(),
        decreases a@.len() - i,
    {
        if a[i].token.literal != b[i].token.literal {
            assert(names_of(a@)[i as int] != names_of(b@)[i as int]);
            return false;
        }
        i = i + 1;
    }
    assert(names_of(a@) =~= names_of(b@));
    true
}

/// Whether two expressions are the same tree.
pub fn expressions_equal(a: &Expression, b: &Expression) -> (r: bool)
    ensures
        r == (a.model() == b.model()),
    decreases a,
{
    match (a, b) {
        (Expression::Identifier(x), Expression::Identifier(y)) => x.token.literal
            == y.token.literal,
        (Expression::IntegerLiteral(x), Expression::IntegerLiteral(y)) => x.value == y.value,
        (Expression::Boolean(x), Expression::Boolean(y)) => x.value == y.value,
        (Expression::Prefix(x), Expression::Prefix(y)) => x.token.kind == y.token.kind
            && expressions_equal(&x.right, &y.right),
        (Expression::Infix(x), Expression::Infix(y)) => x.token.kind == y.token.kind
            && expressions_equal(&x.left, &y.left) && expressions_equal(&x.right, &y.right),
        (Expression::If(x), Expression::If(y)) => {
            if !expressions_equal(&x.condition, &y.condition) {
                return false;
            }
            if !statement_lists_equal(&x.consequence.statements, &y.consequence.statements) {
                return false;
            }
            match (&x.alternative, &y.alternative) {
                (Some(p), Some(q)) => statement_lists_equal(&p.statements, &q.statements),
                (None, None) => true,
                _ => false,
            }
        },
        (Expression::FunctionLiteral(x), Expression::FunctionLiteral(y)) => names_equal(
            &x.parameters,
            &y.parameters,
        ) && statement_lists_equal(&x.body.statements, &y.body.statements),
        (Expression::Call(x), Expression::Call(y)) => expressions_equal(&x.function, &y.function)
            && expression_lists_equal(&x.arguments, &y.arguments),
        _ => false,
    }
}

/// Whether two lists of expressions are the same trees.
pub fn expression_lists_equal(a: &Vec<Expression>, b: &Vec<Expression>) -> (r: bool)
    ensures
        r == (exprs_model(a@) == exprs_model(b@)),
    decreases a@,
{
    proof {
        lemma_exprs_model_len(a@);
        lemma_exprs_model_len(b@);
    }
    if a.len() != b.len() {
        return false;
    }
    let mut i: usize = 0;
    while i < a.len()
        invariant
            a@.len() == b@.len(),
            exprs_model(a@).len() == a@.len(),
            exprs_model(b@).len() == b@.len(),
            i <= a@.len(),
            forall|k: int| 0 <= k < i ==> #[trigger] exprs_model(a@)[k] == exprs_model(b@)[k],
        decreases a@.len() - i,
    {
        proof {
            lemma_exprs_model_index(a@, i as int);
            lemma_exprs_model_index(b@, i as int);
            assert(decreases_to!(a@ => a@[i as int]));
        }
        if !expressions_equal(&a[i], &b[i]) {
            return false;
        }
        i = i + 1;
    }
    assert(exprs_model(a@) =~= exprs_model(b@));
    true
}

/// Whether two statements are the same tree.
pub fn statements_equal(a: &Statement, b: &Statement) -> (r: bool)
    ensures
        r == (a.model() == b.model()),
    decreases a,
{
    match (a, b) {
        (Statement::Let(x), Statement::Let(y)) => x.name.token.literal == y.name.token.literal
            && expressions_equal(&x.value, &y.value),
        (Statement::Return(x), Statement::Return(y)) => expressions_equal(&x.value, &y.value),
        (Statement::Expression(x), Statement::Expression(y)) => expressions_equal(
            &x.expression,
            &y.expression,
        ),
        (Statement::Block(x), Statement::Block(y)) => statement_lists_equal(
            &x.statements,
            &y.statements,
        ),
        _ => false,
    }
}

/// Whether two lists of statements are the same trees.
pub fn statement_lists_equal(a: &Vec<Statement>, b: &Vec<Statement>) -> (r: bool)
    ensures
        r == (stmts_model(a@) == stmts_model(b@)),
    decreases a@,
{
    proof {
        lemma_stmts_model_len(a@);
        lemma_stmts_model_len(b@);
    }
    if a.len() != b.len() {
        return false;
    }
    let mut i: usize = 0;
    while i < a.len()
        invariant
            a@.len() == b@.len(),
            stmts_model(a@).len() == a@.len(),
            stmts_model(b@).len() == b@.len(),
            i <= a@.len(),
            forall|k: int| 0 <= k < i ==> #[trigger] stmts_model(a@)[k] == stmts_model(b@)[k],
        decreases a@.len() - i,
    {
        proof {
            lemma_stmts_model_index(a@, i as int);
            lemma_stmts_model_index(b@, i as int);
            assert(decreases_to!(a@ => a@[i as int]));
        }
        if !statements_equal(&a[i], &b[i]) {
            return false;
        }
        i = i + 1;
    }
    assert(stmts_model(a@) =~= stmts_model(b@));
    true
}

/// Whether two objects stand for the same value.
pub fn objects_equal(a: &Object, b: &Object) -> (r: bool)
    ensures
        r == (a.model() == b.model()),
    decreases a,
{
    match (a, b) {
        (Object::Boolean(x), Object::Boolean(y)) => x.value == y.value,
        (Object::Integer(x), Object::Integer(y)) => x.value == y.value,
        (Object::Null(_), Object::Null(_)) => true,
        (Object::Error(x), Object::Error(y)) => x.message == y.message,
        (Object::Return(x), Object::Return(y)) => objects_equal(&x.value, &y.value),
        (Object::Function(x), Object::Function(y)) => names_equal(&x.parameters, &y.parameters)
            && statement_lists_equal(&x.body.statements, &y.body.statements)
            && environments_equal(&x.env, &y.env),
        _ => false,
    }
}

/// Whether two environments hold the same scopes.
pub fn environments_equal(a: &Environment, b: &Environment) -> (r: bool)
    ensures
        r == (a.model() == b.model()),
    decreases a,
{
    proof {
        lemma_bindings_model_len(a.store@);
        lemma_bindings_model_len(b.store@);
    }
    let ghost sa = bindings_model(a.store@);
    let ghost sb = bindings_model(b.store@);
    if a.store.len() != b.store.len() {
        assert(a.model()[0] != b.model()[0]);
        return false;
    }
    let mut i: usize = 0;
    while i < a.store.len()
        invariant
            a.store@.len() == b.store@.len(),
            sa == bindings_model(a.store@),
            sb == bindings_model(b.store@),
            sa.len() == a.store@.len(),
            sb.len() == b.store@.len(),
            i <= a.store@.len(),
            forall|k: int| 0 <= k < i ==> #[trigger] sa[k] == sb[k],
        decreases a.store@.len() - i,
    {
        proof {
            lemma_bindings_model_index(a.store@, i as int);
            lemma_bindings_model_index(b.store@, i as int);
            assert(decreases_to!(a => a.store));
            assert(decreases_to!(a.store => a.store@));
            assert(decreases_to!(a.store@ => a.store@[i as int]));
            assert(decreases_to!(a.store@[i as int] => a.store@[i as int].1));
        }
        if a.store[i].0 != b.store[i].0 || !objects_equal(&a.store[i].1, &b.store[i].1) {
            assert(sa[i as int] != sb[i as int]);
            assert(a.model()[0] != b.model()[0]);
            return false;
        }
        i = i + 1;
    }
    assert(sa =~= sb);
    match (&a.outer, &b.outer) {
        (Some(x), Some(y)) => {
            let r = environments_equal(x, y);
            assert(a.model().drop_first() =~= x.model());
            assert(b.model().drop_first() =~= y.model());
            if r {
                assert(a.model() =~= b.model());
            }
            r
        },
        (None, None) => {
            assert(a.model() =~= b.model());
            true
        },
        (Some(x), None) => {
            assert(x.model().len() >= 1);
            assert(a.model().len() != b.model().len());
            false
        },
        (None, Some(y)) => {
            assert(y.model().len() >= 1);
            assert(a.model().len() != b.model().len());
            false
        },
    }
}

} // verus!
