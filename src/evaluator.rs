//! Evaluation of syntax trees against an environment.
use vstd::prelude::*;

use crate::environment::Environment;
use crate::equality::objects_equal;
use crate::expression::{duplicate_identifiers, exprs_model, names_of, Expression};
use crate::object::{self, Error, Function, Null, Object, Return, Value};
use crate::parser::kind_name;
use crate::program::Program;
use crate::semantics::{
    abs, already_exists, apply, bind_parameters, eval_args, eval_block, eval_expr, eval_program,
    eval_stmt, infix_value, int_result, integer_infix, integer_overflow, kind_of_value,
    not_a_function, prefix_value, same_type, trunc_div, type_mismatch, unknown_infix,
    unknown_prefix, unwrap_return,
};
use crate::statement::{self, stmts_model, Block, Statement, StmtModel};
use crate::token::TokenKind;

verus! {

/// How deeply function calls may nest before evaluation gives up with an error.
pub const MAX_CALL_DEPTH: u64 = 200;

/// The values of a list of objects.
pub open spec fn objects_model(os: Seq<Object>) -> Seq<Value> {
    os.map_values(|o: Object| o.model())
}

/// The name of an object's type, as error messages write it.
pub fn kind_name_of(o: &Object) -> (r: &'static str)
    ensures
        r@ == kind_of_value(o.model()),
{
    match o {
        Object::Integer(_) => "INTEGER",
        Object::Boolean(_) => "BOOLEAN",
        Object::Null(_) => "NULL",
        Object::Return(_) => "RETURN_VALUE",
        Object::Error(_) => "ERROR",
        Object::Function(_) => "FUNCTION",
    }
}

fn error_object(message: String) -> (r: Object)
    ensures
        r.model() == Value::Error(message@),
{
    Object::Error(Error { message })
}

fn integer_overflow_object() -> (r: Object)
    ensures
        r.model() == integer_overflow(),
{
    error_object(String::from_str("integer overflow"))
}

/// `n` as an integer object, or an overflow error if it does not fit in an `i64`.
fn int_object(n: i128) -> (r: Object)
    ensures
        r.model() == int_result(n as int),
{
    if n < -9223372036854775808i128 || n > 9223372036854775807i128 {
        integer_overflow_object()
    } else {
        Object::Integer(object::Integer { value: n as i64 })
    }
}

fn type_mismatch_object(op: TokenKind, l: &Object, r: &Object) -> (o: Object)
    ensures
        o.model() == type_mismatch(op, l.model(), r.model()),
{
    let mut m = String::from_str("type mismatch: ");
    m.append(kind_name_of(l));
    m.append(" ");
    m.append(kind_name(op));
    m.append(" ");
    m.append(kind_name_of(r));
    error_object(m)
}

fn unknown_infix_object(op: TokenKind, l: &Object, r: &Object) -> (o: Object)
    ensures
        o.model() == unknown_infix(op, l.model(), r.model()),
{
    let mut m = String::from_str("unknown operator: ");
    m.append(kind_name_of(l));
    m.append(" ");
    m.append(kind_name(op));
    m.append(" ");
    m.append(kind_name_of(r));
    error_object(m)
}

fn unknown_prefix_object(op: TokenKind, v: &Object) -> (o: Object)
    ensures
        o.model() == unknown_prefix(op, v.model()),
{
    let mut m = String::from_str("unknown operator: ");
    m.append(kind_name(op));
    m.append(kind_name_of(v));
    error_object(m)
}

fn not_a_function_object(v: &Object) -> (o: Object)
    ensures
        o.model() == not_a_function(v.model()),
{
    let mut m = String::from_str("not a function: ");
    m.append(kind_name_of(v));
    error_object(m)
}

fn already_exists_object(name: &String) -> (o: Object)
    ensures
        o.model() == already_exists(name@),
{
    let mut m = String::from_str("variable named ");
    m.append(name.as_str());
    m.append(" already exists");
    error_object(m)
}

/// Integer division rounded toward zero; `b` is not zero.
fn truncating_division(a: i64, b: i64) -> (q: i128)
    requires
        b != 0,
    ensures
        q as int == trunc_div(a as int, b as int),
{
    let ua: i128 = if a < 0 {
        -(a as i128)
    } else {
        a as i128
    };
    let ub: i128 = if b < 0 {
        -(b as i128)
    } else {
        b as i128
    };
    assert(ua as int == abs(a as int) && ub as int == abs(b as int));
    let q = ua / ub;
    assert(0 <= q <= ua) by (nonlinear_arith)
        requires
            ua >= 0,
            ub >= 1,
            q == ua / ub,
    ;
    if (a < 0) != (b < 0) {
        -q
    } else {
        q
    }
}

/// A binary operator on two integers.
pub fn evaluate_integer_infix(op: TokenKind, a: i64, b: i64) -> (r: Object)
    ensures
        r.model() == integer_infix(op, a, b),
{
    match op {
        TokenKind::Plus => int_object(a as i128 + b as i128),
        TokenKind::Minus => int_object(a as i128 - b as i128),
        TokenKind::Asterisk => {
            assert(-85070591730234615865843651857942052864 <= a as i128 * b as i128
                <= 85070591730234615865843651857942052864) by (nonlinear_arith)
                requires
                    -9223372036854775808 <= a <= 9223372036854775807,
                    -9223372036854775808 <= b <= 9223372036854775807,
            ;
            int_object(a as i128 * b as i128)
        },
        TokenKind::Slash => {
            if b == 0 {
                error_object(String::from_str("division by zero"))
            } else {
                int_object(truncating_division(a, b))
            }
        },
        TokenKind::LessThan => Object::Boolean(object::Boolean { value: a < b }),
        TokenKind::GreaterThan => Object::Boolean(object::Boolean { value: a > b }),
        TokenKind::LessOrEqual => Object::Boolean(object::Boolean { value: a <= b }),
        TokenKind::GreaterOrEqual => Object::Boolean(object::Boolean { value: a >= b }),
        TokenKind::Equal => Object::Boolean(object::Boolean { value: a == b }),
        TokenKind::NotEqual => Object::Boolean(object::Boolean { value: a != b }),
        _ => {
            let l = Object::Integer(object::Integer { value: a });
            let r = Object::Integer(object::Integer { value: b });
            unknown_infix_object(op, &l, &r)
        },
    }
}

/// Whether two objects have the same type.
fn same_kind(a: &Object, b: &Object) -> (r: bool)
    ensures
        r == same_type(a.model(), b.model()),
{
    match (a, b) {
        (Object::Integer(_), Object::Integer(_)) => true,
        (Object::Boolean(_), Object::Boolean(_)) => true,
        (Object::Null(_), Object::Null(_)) => true,
        (Object::Return(_), Object::Return(_)) => true,
        (Object::Error(_), Object::Error(_)) => true,
        (Object::Function(_), Object::Function(_)) => true,
        _ => false,
    }
}

/// A binary operator on two objects, neither of them an error.
pub fn evaluate_infix(op: TokenKind, left: &Object, right: &Object) -> (r: Object)
    ensures
        r.model() == infix_value(op, left.model(), right.model()),
{
    match (left, right) {
        (Object::Integer(a), Object::Integer(b)) => evaluate_integer_infix(op, a.value, b.value),
        _ => {
            if !same_kind(left, right) {
                type_mismatch_object(op, left, right)
            } else if op == TokenKind::Equal {
                Object::Boolean(object::Boolean { value: objects_equal(left, right) })
            } else if op == TokenKind::NotEqual {
                Object::Boolean(object::Boolean { value: !objects_equal(left, right) })
            } else {
                unknown_infix_object(op, left, right)
            }
        },
    }
}

/// A unary operator on an object that is no error.
pub fn evaluate_prefix(op: TokenKind, right: &Object) -> (r: Object)
    ensures
        r.model() == prefix_value(op, right.model()),
{
    if op == TokenKind::Bang {
        Object::Boolean(right.as_boolean().not())
    } else if op == TokenKind::Minus {
        match right {
            Object::Integer(i) => int_object(-(i.value as i128)),
            _ => unknown_prefix_object(op, right),
        }
    } else {
        unknown_prefix_object(op, right)
    }
}

/// The object inside a `return`, or the object itself.
pub fn unwrap_return_object(v: Object) -> (r: Object)
    ensures
        r.model() == unwrap_return(v.model()),
{
    match v {
        Object::Return(r) => *r.value,
        other => other,
    }
}

proof fn lemma_objects_model_push(os: Seq<Object>, o: Object)
    ensures
        objects_model(os.push(o)) == objects_model(os).push(o.model()),
{
    assert(objects_model(os.push(o)) =~= objects_model(os).push(o.model()));
}

impl Expression {
    /// Evaluates this expression in `env`, with `depth` more nested calls allowed.
    pub fn evaluate(&self, env: &mut Environment, depth: u64) -> (r: Object)
        ensures
            (r.model(), final(env).model()) == eval_expr(
                self.model(),
                old(env).model(),
                depth as nat,
            ),
        decreases depth, self.model(),
    {
        match self {
            Expression::Identifier(i) => match env.get(i.token.literal.as_str()) {
                Some(o) => o.duplicate(),
                None => {
                    let mut m = String::from_str("identifier not defined: ");
                    m.append(i.token.literal.as_str());
                    error_object(m)
                },
            },
            Expression::IntegerLiteral(i) => Object::Integer(object::Integer { value: i.value }),
            Expression::Boolean(b) => Object::Boolean(object::Boolean { value: b.value }),
            Expression::Prefix(p) => {
                proof {
                    let m = self.model();
                    assert(decreases_to!(m => m->Prefix_1));
                }
                let v = p.right.evaluate(env, depth);
                if v.is_error() {
                    v
                } else {
                    evaluate_prefix(p.token.kind, &v)
                }
            },
            Expression::Infix(i) => {
                proof {
                    let m = self.model();
                    assert(decreases_to!(m => m->Infix_1));
                    assert(decreases_to!(m => m->Infix_2));
                }
                let l = i.left.evaluate(env, depth);
                if l.is_error() {
                    return l;
                }
                let r = i.right.evaluate(env, depth);
                if r.is_error() {
                    return r;
                }
                evaluate_infix(i.token.kind, &l, &r)
            },
            Expression::If(i) => {
                let c = i.condition.evaluate(env, depth);
                if c.is_error() {
                    c
                } else if c.as_boolean().value {
                    proof {
                        let m = self.model();
                        assert(decreases_to!(m => m->If_1));
                    }
                    evaluate_statements(&i.consequence.statements, env, depth)
                } else {
                    match &i.alternative {
                        Some(a) => {
                            proof {
                                let m = self.model();
                                let alt = m->If_2;
                                assert(decreases_to!(m => alt));
                                assert(decreases_to!(alt => alt->Some_0));
                            }
                            evaluate_statements(&a.statements, env, depth)
                        },
                        None => Object::Null(Null),
                    }
                }
            },
            Expression::FunctionLiteral(f) => Object::Function(
                Function {
                    parameters: duplicate_identifiers(&f.parameters),
                    body: f.body.duplicate(),
                    env: env.duplicate(),
                },
            ),
            Expression::Call(c) => {
                let callee = c.function.evaluate(env, depth);
                match callee {
                    Object::Error(_) => callee,
                    Object::Function(f) => {
                        match evaluate_arguments(&c.arguments, env, depth) {
                            Err(e) => e,
                            Ok(args) => {
                                if depth == 0 {
                                    error_object(String::from_str("maximum call depth exceeded"))
                                } else {
                                    apply_function(&f, args, depth - 1)
                                }
                            },
                        }
                    },
                    _ => not_a_function_object(&callee),
                }
            },
        }
    }
}

/// The model of an argument evaluation whose first values were `done`.
pub open spec fn after_values(
    done: Seq<Value>,
    rest: (Result<Seq<Value>, Value>, Seq<crate::object::Scope>),
) -> (Result<Seq<Value>, Value>, Seq<crate::object::Scope>) {
    match rest.0 {
        Ok(vs) => (Ok(done + vs), rest.1),
        Err(e) => (Err(e), rest.1),
    }
}

/// Evaluates call arguments left to right; the first error stops them.
pub fn evaluate_arguments(args: &Vec<Expression>, env: &mut Environment, depth: u64) -> (r: Result<
    Vec<Object>,
    Object,
>)
    ensures
        final(env).model() == eval_args(exprs_model(args@), old(env).model(), depth as nat).1,
        match r {
            Ok(vs) => eval_args(exprs_model(args@), old(env).model(), depth as nat).0 == Ok::<
                Seq<Value>,
                Value,
            >(objects_model(vs@)),
            Err(e) => eval_args(exprs_model(args@), old(env).model(), depth as nat).0 == Err::<
                Seq<Value>,
                Value,
            >(e.model()),
        },
    decreases depth, exprs_model(args@),
{
    let ghost ms = exprs_model(args@);
    let ghost n = args@.len();
    proof {
        crate::expression::lemma_exprs_model_len(args@);
        assert(ms.subrange(0, n as int) =~= ms);
        assert(objects_model(Seq::<Object>::empty()) =~= Seq::<Value>::empty());
    }
    let mut values: Vec<Object> = Vec::new();
    let mut i: usize = 0;
    while i < args.len()
        invariant
            n == args@.len(),
            ms == exprs_model(args@),
            ms.len() == n,
            i <= n,
            eval_args(ms, old(env).model(), depth as nat) == after_values(
                objects_model(values@),
                eval_args(ms.subrange(i as int, n as int), env.model(), depth as nat),
            ),
        decreases n - i,
    {
        proof {
            crate::expression::lemma_exprs_model_index(args@, i as int);
            assert(ms.subrange(i as int, n as int)[0] == ms[i as int]);
            assert(ms.subrange(i as int, n as int).drop_first() =~= ms.subrange(
                i + 1,
                n as int,
            ));
            assert(decreases_to!(ms => ms[i as int]));
        }
        let v = args[i].evaluate(env, depth);
        if v.is_error() {
            return Err(v);
        }
        let ghost before = values@;
        proof {
            lemma_objects_model_push(before, v);
            assert(objects_model(before) + seq![v.model()] =~= objects_model(before).push(
                v.model(),
            ));
            assert forall|vs: Seq<Value>|
                #![auto]
                objects_model(before) + (seq![v.model()] + vs) =~= objects_model(before).push(
                    v.model(),
                ) + vs by {}
        }
        values.push(v);
        i = i + 1;
    }
    assert(objects_model(values@) + Seq::<Value>::empty() =~= objects_model(values@));
    Ok(values)
}

/// Calls `f` with `args`: binds the parameters in a fresh scope inside the
/// environment `f` captured, runs the body there, and unwraps a `return`.
pub fn apply_function(f: &Function, args: Vec<Object>, depth: u64) -> (r: Object)
    ensures
        r.model() == apply(
            names_of(f.parameters@),
            stmts_model(f.body.statements@),
            f.env.model(),
            objects_model(args@),
            depth as nat,
        ),
    decreases depth, StmtModel::Block(stmts_model(f.body.statements@)),
{
    let ghost names = names_of(f.parameters@);
    let ghost vals = objects_model(args@);
    if f.parameters.len() != args.len() {
        return error_object(String::from_str("wrong number of arguments"));
    }
    let mut call_env = Environment::new_enclosed(f.env.duplicate());
    let n = args.len();
    let mut i: usize = 0;
    while i < n
        invariant
            n == args@.len(),
            n == f.parameters@.len(),
            names == names_of(f.parameters@),
            vals == objects_model(args@),
            i <= n,
            bind_parameters(names, vals, 0, seq![seq![]] + f.env.model()) == bind_parameters(
                names,
                vals,
                i as int,
                call_env.model(),
            ),
        decreases n - i,
    {
        let name = f.parameters[i].token.literal.clone();
        let value = args[i].duplicate();
        let ghost before = call_env.model();
        if !call_env.set(name, value) {
            return already_exists_object(&f.parameters[i].token.literal);
        }
        i = i + 1;
    }
    proof {
        let b = StmtModel::Block(stmts_model(f.body.statements@));
        assert(decreases_to!(b => b->Block_0));
    }
    let v = evaluate_statements(&f.body.statements, &mut call_env, depth);
    unwrap_return_object(v)
}

/// Evaluates statements in order: the first `return` or error stops them and is the
/// result; otherwise the last statement's value, or `null` if there is none.
pub fn evaluate_statements(stmts: &Vec<Statement>, env: &mut Environment, depth: u64) -> (r: Object)
    ensures
        (r.model(), final(env).model()) == eval_block(
            stmts_model(stmts@),
            old(env).model(),
            depth as nat,
        ),
    decreases depth, stmts_model(stmts@),
{
    let ghost ms = stmts_model(stmts@);
    let n = stmts.len();
    proof {
        crate::statement::lemma_stmts_model_len(stmts@);
        assert(ms.subrange(0, n as int) =~= ms);
    }
    if n == 0 {
        return Object::Null(Null);
    }
    let mut i: usize = 0;
    loop
        invariant
            n == stmts@.len(),
            ms == stmts_model(stmts@),
            ms.len() == n,
            i < n,
            eval_block(ms, old(env).model(), depth as nat) == eval_block(
                ms.subrange(i as int, n as int),
                env.model(),
                depth as nat,
            ),
        decreases n - i,
    {
        proof {
            crate::statement::lemma_stmts_model_index(stmts@, i as int);
            assert(ms.subrange(i as int, n as int)[0] == ms[i as int]);
            assert(ms.subrange(i as int, n as int).drop_first() =~= ms.subrange(
                i + 1,
                n as int,
            ));
            assert(decreases_to!(ms => ms[i as int]));
        }
        let v = stmts[i].evaluate(env, depth);
        let stop = match &v {
            Object::Return(_) => true,
            Object::Error(_) => true,
            _ => false,
        };
        if i + 1 == n || stop {
            return v;
        }
        i = i + 1;
    }
}

impl Statement {
    /// Evaluates this statement in `env`, with `depth` more nested calls allowed.
    pub fn evaluate(&self, env: &mut Environment, depth: u64) -> (r: Object)
        ensures
            (r.model(), final(env).model()) == eval_stmt(
                self.model(),
                old(env).model(),
                depth as nat,
            ),
        decreases depth, self.model(),
    {
        match self {
            Statement::Let(l) => {
                proof {
                    let m = self.model();
                    assert(decreases_to!(m => m->Let_1));
                }
                let v = l.value.evaluate(env, depth);
                if v.is_error() {
                    return v;
                }
                if env.set(l.name.token.literal.clone(), v.duplicate()) {
                    unwrap_return_object(v)
                } else {
                    already_exists_object(&l.name.token.literal)
                }
            },
            Statement::Return(r) => {
                proof {
                    let m = self.model();
                    assert(decreases_to!(m => m->Return_0));
                }
                let v = r.value.evaluate(env, depth);
                if v.is_error() {
                    v
                } else {
                    Object::Return(Return { value: Box::new(v) })
                }
            },
            Statement::Expression(e) => {
                proof {
                    let m = self.model();
                    assert(decreases_to!(m => m->Expr_0));
                }
                e.expression.evaluate(env, depth)
            },
            Statement::Block(b) => {
                proof {
                    let m = self.model();
                    assert(decreases_to!(m => m->Block_0));
                }
                evaluate_statements(&b.statements, env, depth)
            },
        }
    }
}

impl Block {
    /// Evaluates the statements of this block in `env`.
    pub fn evaluate(&self, env: &mut Environment, depth: u64) -> (r: Object)
        ensures
            (r.model(), final(env).model()) == eval_block(
                stmts_model(self.statements@),
                old(env).model(),
                depth as nat,
            ),
    {
        evaluate_statements(&self.statements, env, depth)
    }
}

impl Program {
    /// Evaluates the program's statements in `env`; a final `return` is unwrapped.
    pub fn evaluate(&self, env: &mut Environment) -> (r: Object)
        ensures
            (r.model(), final(env).model()) == eval_program(
                self.model(),
                old(env).model(),
                MAX_CALL_DEPTH as nat,
            ),
    {
        let v = evaluate_statements(&self.statements, env, MAX_CALL_DEPTH);
        unwrap_return_object(v)
    }
}

} // verus!
