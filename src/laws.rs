//! Laws of the lexer, the parser and the evaluator, stated over their models.
use vstd::prelude::*;

use crate::environment::{env_get, env_set, scope_get};
use crate::expression::ExprModel;
use crate::lexer::{
    is_digit, is_letter, is_whitespace, lemma_skip_whitespace_bounds, lemma_token_at_bounds,
    skip_whitespace, token_at, tokenize, tokenize_from,
};
use crate::object::{truthy, Env, Scope, Value};
use crate::parser::ParserError;
use crate::precedence::{is_binary_operator, precedence_of, Precedence};
use crate::semantics::{
    apply, bind_parameters, eval_block, eval_expr, eval_stmt, stops, unwrap_return,
};
use crate::statement::StmtModel;
use crate::syntax::{parse_expression, parse_program, parse_program_from, parse_statement, Tok};
use crate::token::{single_char_kind, TokenKind};

verus! {

/// What every token that the lexer produces satisfies: its text is not empty, and an
/// illegal token is one character that starts no token of the language.
pub open spec fn well_formed_token(t: Tok) -> bool {
    &&& t.1.len() >= 1
    &&& t.0 == TokenKind::Illegal ==> {
        &&& t.1.len() == 1
        &&& !is_whitespace(t.1[0])
        &&& !is_letter(t.1[0])
        &&& !is_digit(t.1[0])
        &&& single_char_kind(t.1[0]) == TokenKind::Illegal
    }
}

proof fn lemma_tokenize_from_total(s: Seq<char>, i: int)
    requires
        0 <= i <= s.len(),
    ensures
        tokenize_from(s, i).len() <= s.len() - i,
        forall|k: int|
            0 <= k < tokenize_from(s, i).len() ==> well_formed_token(
                #[trigger] tokenize_from(s, i)[k],
            ),
    decreases s.len() - i,
{
    lemma_skip_whitespace_bounds(s, i);
    let j = skip_whitespace(s, i);
    if j < s.len() {
        lemma_token_at_bounds(s, j);
        let (kind, e) = token_at(s, j);
        lemma_tokenize_from_total(s, e);
        let head: Tok = (kind, s.subrange(j, e));
        assert(tokenize_from(s, i) == seq![head] + tokenize_from(s, e));
        assert(well_formed_token(head)) by {
            assert(head.1[0] == s[j]);
        }
        assert forall|k: int| 0 <= k < tokenize_from(s, i).len() implies well_formed_token(
            #[trigger] tokenize_from(s, i)[k],
        ) by {
            if k > 0 {
                assert(tokenize_from(s, i)[k] == tokenize_from(s, e)[k - 1]);
            }
        }
    }
}

/// The lexer is total: every text, whatever characters it holds, splits into finitely
/// many tokens (no more than it has characters), each of them well formed; a character
/// that starts no token becomes an illegal token of its own.
pub proof fn law_lexer_total(s: Seq<char>)
    ensures
        tokenize(s).len() <= s.len(),
        forall|k: int| 0 <= k < tokenize(s).len() ==> well_formed_token(#[trigger] tokenize(s)[k]),
{
    lemma_tokenize_from_total(s, 0);
}

proof fn lemma_program_from_extends(
    ts: Seq<Tok>,
    stmts: Seq<StmtModel>,
    errs: Seq<ParserError>,
)
    ensures
        parse_program_from(ts, stmts, errs).0.len() >= stmts.len(),
        parse_program_from(ts, stmts, errs).1.len() >= errs.len(),
        forall|k: int|
            0 <= k < errs.len() ==> #[trigger] parse_program_from(ts, stmts, errs).1[k]
                == errs[k],
    decreases ts.len(),
{
    if ts.len() > 0 {
        let (stmt, r) = parse_statement(ts);
        match stmt {
            Ok(s) => {
                if r.len() < ts.len() {
                    lemma_program_from_extends(r, stmts.push(s), errs);
                    let out = parse_program_from(r, stmts.push(s), errs);
                    assert forall|k: int| 0 <= k < errs.len() implies #[trigger] out.1[k]
                        == errs[k] by {}
                }
            },
            Err(e) => {
                let r2 = crate::syntax::recover(r);
                if r2.len() < ts.len() {
                    lemma_program_from_extends(r2, stmts, errs.push(e));
                    let out = parse_program_from(r2, stmts, errs.push(e));
                    assert forall|k: int| 0 <= k < errs.len() implies #[trigger] out.1[k]
                        == errs[k] by {
                        assert(out.1[k] == errs.push(e)[k]);
                    }
                }
            },
        }
    }
}

/// The parser is total: every token sequence gives statements and errors. A non-empty
/// sequence gives at least one of them, and when its first statement cannot be parsed,
/// the reason is the first error reported.
pub proof fn law_parser_total(ts: Seq<Tok>)
    ensures
        ts.len() > 0 ==> parse_program(ts).0.len() + parse_program(ts).1.len() >= 1,
        parse_statement(ts).0 is Err && ts.len() > 0 ==> parse_program(ts).1.len() >= 1
            && parse_program(ts).1[0] == parse_statement(ts).0->Err_0,
{
    if ts.len() > 0 {
        let (stmt, r) = parse_statement(ts);
        match stmt {
            Ok(s) => {
                if r.len() < ts.len() {
                    lemma_program_from_extends(r, seq![s], seq![]);
                }
            },
            Err(e) => {
                let r2 = crate::syntax::recover(r);
                if r2.len() < ts.len() {
                    lemma_program_from_extends(r2, seq![], seq![e]);
                }
            },
        }
    }
}

/// Three operands joined by two binary operators.
pub open spec fn operator_chain(
    a: Seq<char>,
    op1: Tok,
    b: Seq<char>,
    op2: Tok,
    c: Seq<char>,
) -> Seq<Tok> {
    seq![(TokenKind::Identifier, a), op1, (TokenKind::Identifier, b), op2, (TokenKind::Identifier, c)]
}

/// Precedence: in `a OP1 b OP2 c` the operator that binds tighter takes the middle
/// operand; at equal precedence the left one does (operators associate to the left).
pub proof fn law_precedence(a: Seq<char>, op1: Tok, b: Seq<char>, op2: Tok, c: Seq<char>)
    requires
        is_binary_operator(op1.0),
        is_binary_operator(op2.0),
    ensures
        ({
            let ts = operator_chain(a, op1, b, op2, c);
            let left_grouped = ExprModel::Infix(
                op2.0,
                Box::new(
                    ExprModel::Infix(
                        op1.0,
                        Box::new(ExprModel::Ident(a)),
                        Box::new(ExprModel::Ident(b)),
                    ),
                ),
                Box::new(ExprModel::Ident(c)),
            );
            let right_grouped = ExprModel::Infix(
                op1.0,
                Box::new(ExprModel::Ident(a)),
                Box::new(
                    ExprModel::Infix(
                        op2.0,
                        Box::new(ExprModel::Ident(b)),
                        Box::new(ExprModel::Ident(c)),
                    ),
                ),
            );
            parse_expression(ts, Precedence::Lowest) == (
                Ok::<ExprModel, ParserError>(
                    if precedence_of(op1.0).rank() >= precedence_of(op2.0).rank() {
                        left_grouped
                    } else {
                        right_grouped
                    },
                ),
                Seq::<Tok>::empty(),
            )
        }),
{
    let ts = operator_chain(a, op1, b, op2, c);
    let t1 = ts.drop_first();
    let t2 = t1.drop_first();
    let t3 = t2.drop_first();
    let t4 = t3.drop_first();
    let t5 = t4.drop_first();
    assert(t1 =~= seq![op1, (TokenKind::Identifier, b), op2, (TokenKind::Identifier, c)]);
    assert(t2 =~= seq![(TokenKind::Identifier, b), op2, (TokenKind::Identifier, c)]);
    assert(t3 =~= seq![op2, (TokenKind::Identifier, c)]);
    assert(t4 =~= seq![(TokenKind::Identifier, c)]);
    assert(t5 =~= Seq::<Tok>::empty());
    let ia = ExprModel::Ident(a);
    let ib = ExprModel::Ident(b);
    let ic = ExprModel::Ident(c);
    let prec1 = precedence_of(op1.0);
    let prec2 = precedence_of(op2.0);
    // The last operand stands alone.
    assert(crate::syntax::parse_prefix(t4) == (Ok::<ExprModel, ParserError>(ic), t5));
    assert(crate::syntax::parse_infix_loop(t5, prec2, ic) == (Ok::<ExprModel, ParserError>(ic), t5));
    assert(crate::syntax::parse_infix_loop(t5, prec1, ic) == (Ok::<ExprModel, ParserError>(ic), t5));
    assert(crate::syntax::parse_infix_loop(t5, Precedence::Lowest, ic) == (
        Ok::<ExprModel, ParserError>(ic),
        t5,
    ));
    assert(parse_expression(t4, prec2) == (Ok::<ExprModel, ParserError>(ic), t5));
    assert(parse_expression(t4, prec1) == (Ok::<ExprModel, ParserError>(ic), t5));
    let bc = ExprModel::Infix(op2.0, Box::new(ib), Box::new(ic));
    assert(crate::syntax::parse_infix(t3, ib) == (Ok::<ExprModel, ParserError>(bc), t5));
    assert(crate::syntax::parse_prefix(t2) == (Ok::<ExprModel, ParserError>(ib), t3));
    if prec1.rank() >= prec2.rank() {
        // `b` is taken by the first operator; the second applies to the result.
        assert(crate::syntax::parse_infix_loop(t3, prec1, ib) == (
            Ok::<ExprModel, ParserError>(ib),
            t3,
        ));
        assert(parse_expression(t2, prec1) == (Ok::<ExprModel, ParserError>(ib), t3));
        let ab = ExprModel::Infix(op1.0, Box::new(ia), Box::new(ib));
        assert(crate::syntax::parse_infix(t1, ia) == (Ok::<ExprModel, ParserError>(ab), t3));
        let abc = ExprModel::Infix(op2.0, Box::new(ab), Box::new(ic));
        assert(crate::syntax::parse_infix(t3, ab) == (Ok::<ExprModel, ParserError>(abc), t5));
        assert(crate::syntax::parse_infix_loop(t5, Precedence::Lowest, abc) == (
            Ok::<ExprModel, ParserError>(abc),
            t5,
        ));
        assert(crate::syntax::parse_infix_loop(t3, Precedence::Lowest, ab) == (
            Ok::<ExprModel, ParserError>(abc),
            t5,
        ));
        assert(crate::syntax::parse_infix_loop(t1, Precedence::Lowest, ia) == (
            Ok::<ExprModel, ParserError>(abc),
            t5,
        ));
    } else {
        // The second operator binds tighter and takes `b`.
        assert(crate::syntax::parse_infix_loop(t5, prec1, bc) == (
            Ok::<ExprModel, ParserError>(bc),
            t5,
        ));
        assert(crate::syntax::parse_infix_loop(t3, prec1, ib) == (
            Ok::<ExprModel, ParserError>(bc),
            t5,
        ));
        assert(parse_expression(t2, prec1) == (Ok::<ExprModel, ParserError>(bc), t5));
        let abc = ExprModel::Infix(op1.0, Box::new(ia), Box::new(bc));
        assert(crate::syntax::parse_infix(t1, ia) == (Ok::<ExprModel, ParserError>(abc), t5));
        assert(crate::syntax::parse_infix_loop(t5, Precedence::Lowest, abc) == (
            Ok::<ExprModel, ParserError>(abc),
            t5,
        ));
        assert(crate::syntax::parse_infix_loop(t1, Precedence::Lowest, ia) == (
            Ok::<ExprModel, ParserError>(abc),
            t5,
        ));
    }
    assert(crate::syntax::parse_prefix(ts) == (Ok::<ExprModel, ParserError>(ia), t1));
}

/// `!!x` is the truth of `x`: when `x` evaluates to a value that is no error, `!!x`
/// evaluates to the boolean `truthy` gives that value, in the same environment;
/// an error of `x` is the result of `!!x` too.
pub proof fn law_double_negation(x: ExprModel, env: Env, fuel: nat)
    ensures
        ({
            let (v, e1) = eval_expr(x, env, fuel);
            let not_not = ExprModel::Prefix(
                TokenKind::Bang,
                Box::new(ExprModel::Prefix(TokenKind::Bang, Box::new(x))),
            );
            eval_expr(not_not, env, fuel) == if v is Error {
                (v, e1)
            } else {
                (Value::Bool(truthy(v)), e1)
            }
        }),
{
    let inner = ExprModel::Prefix(TokenKind::Bang, Box::new(x));
    assert(eval_expr(inner, env, fuel) == ({
        let (v, e1) = eval_expr(x, env, fuel);
        if v is Error {
            (v, e1)
        } else {
            (Value::Bool(!truthy(v)), e1)
        }
    }));
}

/// `return e;` inside `n` nested `if (true) { ... }` blocks, each followed by a
/// statement that the return skips.
pub open spec fn nested_return(n: nat, e: ExprModel) -> Seq<StmtModel>
    decreases n,
{
    if n == 0 {
        seq![StmtModel::Return(e)]
    } else {
        seq![
            StmtModel::Expr(
                ExprModel::If(
                    Box::new(ExprModel::Bool(true)),
                    nested_return((n - 1) as nat, e),
                    None,
                ),
            ),
            StmtModel::Expr(ExprModel::Int(0)),
        ]
    }
}

proof fn lemma_nested_return_block(n: nat, e: ExprModel, env: Env, fuel: nat)
    ensures
        ({
            let (v, e1) = eval_expr(e, env, fuel);
            eval_block(nested_return(n, e), env, fuel) == if v is Error {
                (v, e1)
            } else {
                (Value::Ret(Box::new(v)), e1)
            }
        }),
    decreases n,
{
    let body = nested_return(n, e);
    if n == 0 {
        assert(eval_stmt(body[0], env, fuel) == eval_block(body, env, fuel));
    } else {
        let inner = nested_return((n - 1) as nat, e);
        lemma_nested_return_block((n - 1) as nat, e, env, fuel);
        let cond = ExprModel::Bool(true);
        assert(eval_expr(cond, env, fuel) == (Value::Bool(true), env));
        let first = StmtModel::Expr(ExprModel::If(Box::new(cond), inner, None));
        assert(body[0] == first);
        assert(eval_stmt(first, env, fuel) == eval_block(inner, env, fuel));
        assert(stops(eval_block(inner, env, fuel).0));
    }
}

/// A `return` leaves a function from any depth of nested blocks: calling a function
/// whose body is `return e;` inside `n` nested blocks gives the value of `e`.
pub proof fn law_return_unwinds(n: nat, e: ExprModel, captured: Env, fuel: nat)
    ensures
        apply(seq![], nested_return(n, e), captured, seq![], fuel) == eval_expr(
            e,
            seq![seq![]] + captured,
            fuel,
        ).0,
{
    let call_env: Env = seq![seq![]] + captured;
    assert(bind_parameters(seq![], seq![], 0, call_env) == Ok::<Env, Seq<char>>(call_env));
    lemma_nested_return_block(n, e, call_env, fuel);
}

proof fn lemma_bind_keeps_outer(
    names: Seq<Seq<char>>,
    args: Seq<Value>,
    i: int,
    scope: Scope,
    captured: Env,
    n: Seq<char>,
)
    requires
        0 <= i <= names.len(),
        names.len() == args.len(),
        !names.contains(n),
        scope_get(scope, n) is None,
    ensures
        bind_parameters(names, args, i, seq![scope] + captured) matches Ok(env) ==> env_get(
            env,
            n,
        ) == env_get(captured, n),
    decreases names.len() - i,
{
    let env = seq![scope] + captured;
    if i < names.len() {
        match env_set(env, names[i], args[i]) {
            None => {},
            Some(e) => {
                let scope2 = scope.push((names[i], args[i]));
                assert(e =~= seq![scope2] + captured);
                lemma_scope_get_push(scope, names[i], args[i], n);
                lemma_bind_keeps_outer(names, args, i + 1, scope2, captured, n);
            },
        }
    } else {
        assert(env.drop_first() =~= captured);
    }
}

proof fn lemma_scope_get_push(s: Scope, name: Seq<char>, v: Value, n: Seq<char>)
    requires
        name != n,
    ensures
        scope_get(s.push((name, v)), n) == scope_get(s, n),
    decreases s.len(),
{
    if s.len() > 0 {
        assert(s.push((name, v)).drop_first() =~= s.drop_first().push((name, v)));
        lemma_scope_get_push(s.drop_first(), name, v, n);
    } else {
        assert(s.push((name, v)).drop_first() =~= s);
    }
}

/// Closures capture: a function literal evaluated where `n` is bound to `v` is a
/// function value that holds that environment, and calling it, wherever and whenever,
/// gives `v` through `n` when `n` is not one of its parameters.
pub proof fn law_closure_captures(
    params: Seq<Seq<char>>,
    n: Seq<char>,
    v: Value,
    env: Env,
    args: Seq<Value>,
    fuel: nat,
)
    requires
        env_get(env, n) == Some(v),
        !params.contains(n),
        args.len() == params.len(),
        forall|i: int, j: int| 0 <= i < j < params.len() ==> params[i] != params[j],
    ensures
        ({
            let body = seq![StmtModel::Expr(ExprModel::Ident(n))];
            &&& eval_expr(ExprModel::Func(params, body), env, fuel) == (
                Value::Func(params, body, env),
                env,
            )
            &&& apply(params, body, env, args, fuel) == unwrap_return(v)
        }),
{
    let body = seq![StmtModel::Expr(ExprModel::Ident(n))];
    let start: Env = seq![seq![]] + env;
    lemma_bind_keeps_outer(params, args, 0, seq![], env, n);
    lemma_bind_succeeds(params, args, 0, seq![], env);
    let call_env = bind_parameters(params, args, 0, start)->Ok_0;
    assert(eval_stmt(body[0], call_env, fuel) == (v, call_env));
}

proof fn lemma_bind_succeeds(
    names: Seq<Seq<char>>,
    args: Seq<Value>,
    i: int,
    scope: Scope,
    captured: Env,
)
    requires
        0 <= i <= names.len(),
        names.len() == args.len(),
        forall|a: int, b: int| 0 <= a < b < names.len() ==> names[a] != names[b],
        forall|k: int| i <= k < names.len() ==> scope_get(scope, #[trigger] names[k]) is None,
    ensures
        bind_parameters(names, args, i, seq![scope] + captured) is Ok,
    decreases names.len() - i,
{
    if i < names.len() {
        let env = seq![scope] + captured;
        assert(env[0] == scope);
        let scope2 = scope.push((names[i], args[i]));
        assert(env_set(env, names[i], args[i]) == Some(seq![scope2] + captured)) by {
            assert(env.update(0, scope2) =~= seq![scope2] + captured);
        }
        assert forall|k: int| i + 1 <= k < names.len() implies scope_get(
            scope2,
            #[trigger] names[k],
        ) is None by {
            lemma_scope_get_push(scope, names[i], args[i], names[k]);
        }
        lemma_bind_succeeds(names, args, i + 1, scope2, captured);
    }
}

} // verus!
