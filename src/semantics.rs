//! The meaning of programs: evaluation as functions on models.
//!
//! `fuel` bounds how deeply function calls may nest; a call made with no fuel
//! left evaluates to an error.
use vstd::prelude::*;

use crate::environment::{env_get, env_set};
use crate::expression::ExprModel;
use crate::object::{truthy, Env, Value};
use crate::parser::kind_text;
use crate::statement::StmtModel;
use crate::token::TokenKind;

verus! {

/// The name of a value's type, as error messages write it.
pub open spec fn kind_of_value(v: Value) -> Seq<char> {
    match v {
        Value::Int(_) => "INTEGER"@,
        Value::Bool(_) => "BOOLEAN"@,
        Value::Null => "NULL"@,
        Value::Ret(_) => "RETURN_VALUE"@,
        Value::Error(_) => "ERROR"@,
        Value::Func(..) => "FUNCTION"@,
    }
}

/// The position of a value's variant in the list of types.
pub open spec fn type_index(v: Value) -> nat {
    match v {
        Value::Int(_) => 0,
        Value::Bool(_) => 1,
        Value::Null => 2,
        Value::Ret(_) => 3,
        Value::Error(_) => 4,
        Value::Func(..) => 5,
    }
}

/// Whether two values have the same type.
pub open spec fn same_type(a: Value, b: Value) -> bool {
    type_index(a) == type_index(b)
}

pub open spec fn identifier_not_defined(name: Seq<char>) -> Value {
    Value::Error("identifier not defined: "@ + name)
}

pub open spec fn already_exists(name: Seq<char>) -> Value {
    Value::Error("variable named "@ + name + " already exists"@)
}

pub open spec fn type_mismatch(op: TokenKind, l: Value, r: Value) -> Value {
    Value::Error(
        "type mismatch: "@ + kind_of_value(l) + " "@ + kind_text(op) + " "@ + kind_of_value(r),
    )
}

pub open spec fn unknown_infix(op: TokenKind, l: Value, r: Value) -> Value {
    Value::Error(
        "unknown operator: "@ + kind_of_value(l) + " "@ + kind_text(op) + " "@ + kind_of_value(r),
    )
}

pub open spec fn unknown_prefix(op: TokenKind, v: Value) -> Value {
    Value::Error("unknown operator: "@ + kind_text(op) + kind_of_value(v))
}

pub open spec fn not_a_function(v: Value) -> Value {
    Value::Error("not a function: "@ + kind_of_value(v))
}

pub open spec fn wrong_argument_count() -> Value {
    Value::Error("wrong number of arguments"@)
}

pub open spec fn division_by_zero() -> Value {
    Value::Error("division by zero"@)
}

pub open spec fn integer_overflow() -> Value {
    Value::Error("integer overflow"@)
}

pub open spec fn call_depth_exceeded() -> Value {
    Value::Error("maximum call depth exceeded"@)
}

/// An integer result, or an overflow error if it does not fit in an `i64`.
pub open spec fn int_result(n: int) -> Value {
    if i64::MIN <= n <= i64::MAX {
        Value::Int(n as i64)
    } else {
        integer_overflow()
    }
}

pub open spec fn abs(n: int) -> int {
    if n < 0 {
        -n
    } else {
        n
    }
}

/// Integer division rounded toward zero.
pub open spec fn trunc_div(a: int, b: int) -> int {
    let q = abs(a) / abs(b);
    if (a < 0) != (b < 0) {
        -q
    } else {
        q
    }
}

/// A binary operator on two integers.
pub open spec fn integer_infix(op: TokenKind, a: i64, b: i64) -> Value {
    match op {
        TokenKind::Plus => int_result(a + b),
        TokenKind::Minus => int_result(a - b),
        TokenKind::Asterisk => int_result(a * b),
        TokenKind::Slash => if b == 0 {
            division_by_zero()
        } else {
            int_result(trunc_div(a as int, b as int))
        },
        TokenKind::LessThan => Value::Bool(a < b),
        TokenKind::GreaterThan => Value::Bool(a > b),
        TokenKind::LessOrEqual => Value::Bool(a <= b),
        TokenKind::GreaterOrEqual => Value::Bool(a >= b),
        TokenKind::Equal => Value::Bool(a == b),
        TokenKind::NotEqual => Value::Bool(a != b),
        _ => unknown_infix(op, Value::Int(a), Value::Int(b)),
    }
}

/// A binary operator on two values, neither of them an error.
pub open spec fn infix_value(op: TokenKind, l: Value, r: Value) -> Value {
    match (l, r) {
        (Value::Int(a), Value::Int(b)) => integer_infix(op, a, b),
        _ => if !same_type(l, r) {
            type_mismatch(op, l, r)
        } else if op == TokenKind::Equal {
            Value::Bool(l == r)
        } else if op == TokenKind::NotEqual {
            Value::Bool(l != r)
        } else {
            unknown_infix(op, l, r)
        },
    }
}

/// A unary operator on a value that is no error.
pub open spec fn prefix_value(op: TokenKind, v: Value) -> Value {
    if op == TokenKind::Bang {
        Value::Bool(!truthy(v))
    } else if op == TokenKind::Minus {
        match v {
            Value::Int(n) => int_result(-n),
            _ => unknown_prefix(op, v),
        }
    } else {
        unknown_prefix(op, v)
    }
}

/// The value inside a `return`, or the value itself.
pub open spec fn unwrap_return(v: Value) -> Value {
    match v {
        Value::Ret(inner) => *inner,
        _ => v,
    }
}

/// Whether a value stops the statements around it: a `return` or an error.
pub open spec fn stops(v: Value) -> bool {
    v is Ret || v is Error
}

/// Binds `names[i..]` to `args[i..]` one by one, or names the first that is bound twice.
pub open spec fn bind_parameters(
    names: Seq<Seq<char>>,
    args: Seq<Value>,
    i: int,
    env: Env,
) -> Result<Env, Seq<char>>
    decreases names.len() - i,
{
    if i < 0 || i >= names.len() || i >= args.len() {
        Ok(env)
    } else {
        match env_set(env, names[i], args[i]) {
            None => Err(names[i]),
            Some(e) => bind_parameters(names, args, i + 1, e),
        }
    }
}

/// An expression's value and the environment after it.
pub open spec fn eval_expr(e: ExprModel, env: Env, fuel: nat) -> (Value, Env)
    decreases fuel, e,
{
    match e {
        ExprModel::Ident(name) => match env_get(env, name) {
            Some(v) => (v, env),
            None => (identifier_not_defined(name), env),
        },
        ExprModel::Int(n) => (Value::Int(n), env),
        ExprModel::Bool(b) => (Value::Bool(b), env),
        ExprModel::Prefix(op, right) => {
            let (v, e1) = eval_expr(*right, env, fuel);
            if v is Error {
                (v, e1)
            } else {
                (prefix_value(op, v), e1)
            }
        },
        ExprModel::Infix(op, left, right) => {
            let (l, e1) = eval_expr(*left, env, fuel);
            if l is Error {
                (l, e1)
            } else {
                let (r, e2) = eval_expr(*right, e1, fuel);
                if r is Error {
                    (r, e2)
                } else {
                    (infix_value(op, l, r), e2)
                }
            }
        },
        ExprModel::If(cond, cons, alt) => {
            let (c, e1) = eval_expr(*cond, env, fuel);
            if c is Error {
                (c, e1)
            } else if truthy(c) {
                eval_block(cons, e1, fuel)
            } else {
                match alt {
                    Some(a) => eval_block(a, e1, fuel),
                    None => (Value::Null, e1),
                }
            }
        },
        ExprModel::Func(params, body) => (Value::Func(params, body, env), env),
        ExprModel::Call(callee, args) => {
            let (f, e1) = eval_expr(*callee, env, fuel);
            match f {
                Value::Error(_) => (f, e1),
                Value::Func(params, body, captured) => {
                    let (vals, e2) = eval_args(args, e1, fuel);
                    match vals {
                        Err(err) => (err, e2),
                        Ok(vs) => if fuel == 0 {
                            (call_depth_exceeded(), e2)
                        } else {
                            (apply(params, body, captured, vs, (fuel - 1) as nat), e2)
                        },
                    }
                },
                _ => (not_a_function(f), e1),
            }
        },
    }
}

/// The values of call arguments, left to right, or the first error among them.
pub open spec fn eval_args(args: Seq<ExprModel>, env: Env, fuel: nat) -> (
    Result<Seq<Value>, Value>,
    Env,
)
    decreases fuel, args,
{
    if args.len() == 0 {
        (Ok(seq![]), env)
    } else {
        let (v, e1) = eval_expr(args[0], env, fuel);
        if v is Error {
            (Err(v), e1)
        } else {
            let (rest, e2) = eval_args(args.drop_first(), e1, fuel);
            match rest {
                Ok(vs) => (Ok(seq![v] + vs), e2),
                Err(err) => (Err(err), e2),
            }
        }
    }
}

/// Calls a function with parameters `params`, body `body` and captured environment
/// `captured`: binds the parameters in a fresh scope inside `captured`, runs the
/// body there, and unwraps a `return`.
pub open spec fn apply(
    params: Seq<Seq<char>>,
    body: Seq<StmtModel>,
    captured: Env,
    args: Seq<Value>,
    fuel: nat,
) -> Value
    decreases fuel, StmtModel::Block(body),
{
    if params.len() != args.len() {
        wrong_argument_count()
    } else {
        match bind_parameters(params, args, 0, seq![seq![]] + captured) {
            Err(name) => already_exists(name),
            Ok(call_env) => {
                proof {
                    let b = StmtModel::Block(body);
                    assert(decreases_to!(b => b->Block_0));
                }
                unwrap_return(eval_block(body, call_env, fuel).0)
            },
        }
    }
}

/// A statement's value and the environment after it.
pub open spec fn eval_stmt(s: StmtModel, env: Env, fuel: nat) -> (Value, Env)
    decreases fuel, s,
{
    match s {
        StmtModel::Let(name, value) => {
            let (v, e1) = eval_expr(value, env, fuel);
            if v is Error {
                (v, e1)
            } else {
                match env_set(e1, name, v) {
                    None => (already_exists(name), e1),
                    Some(e2) => (unwrap_return(v), e2),
                }
            }
        },
        StmtModel::Return(value) => {
            let (v, e1) = eval_expr(value, env, fuel);
            if v is Error {
                (v, e1)
            } else {
                (Value::Ret(Box::new(v)), e1)
            }
        },
        StmtModel::Expr(value) => eval_expr(value, env, fuel),
        StmtModel::Block(stmts) => eval_block(stmts, env, fuel),
    }
}

/// Statements in order: the first `return` or error stops them and is the value;
/// otherwise the last statement's value, or `null` if there is none.
pub open spec fn eval_block(stmts: Seq<StmtModel>, env: Env, fuel: nat) -> (Value, Env)
    decreases fuel, stmts,
{
    if stmts.len() == 0 {
        (Value::Null, env)
    } else {
        let (v, e1) = eval_stmt(stmts[0], env, fuel);
        if stmts.len() == 1 || stops(v) {
            (v, e1)
        } else {
            eval_block(stmts.drop_first(), e1, fuel)
        }
    }
}

/// A program's value: its statements as a block, with a final `return` unwrapped.
pub open spec fn eval_program(stmts: Seq<StmtModel>, env: Env, fuel: nat) -> (Value, Env) {
    let (v, e) = eval_block(stmts, env, fuel);
    (unwrap_return(v), e)
}

} // verus!
