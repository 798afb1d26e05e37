//! The grammar of the language as functions on token sequences.
//!
//! Each function takes the tokens still to be read and returns what it parsed
//! together with the tokens left after it, also on failure: that is where
//! the parser stands when it reports the error.
//!
//! Every parsing function reads at least one token when it succeeds, and never
//! gives back more tokens than it was given. Conditions such as
//! `r.len() < ts.len()` before a recursive call say so where Verus needs it to see
//! that the recursion ends; they always hold, and the executable parser, whose
//! contracts state that it makes progress, proves it.
use vstd::prelude::*;

use crate::expression::ExprModel;
use crate::lexer::is_digit;
use crate::parser::ParserError;
use crate::precedence::{has_infix, precedence_of, Precedence};
use crate::statement::StmtModel;
use crate::token::TokenKind;

verus! {

/// A token as the grammar sees it: its kind and its text.
pub type Tok = (TokenKind, Seq<char>);

/// What a parsing function returns: its result and the tokens left.
pub type Parsed<T> = (Result<T, ParserError>, Seq<Tok>);

pub open spec fn first_kind(ts: Seq<Tok>) -> Option<TokenKind> {
    if ts.len() > 0 {
        Some(ts[0].0)
    } else {
        None
    }
}

/// Reads one token of kind `k`, or fails without reading.
pub open spec fn expect(ts: Seq<Tok>, k: TokenKind) -> Parsed<Tok> {
    if first_kind(ts) == Some(k) {
        (Ok(ts[0]), ts.drop_first())
    } else {
        (Err(ParserError::WrongTokenKind { expected: k, actual: first_kind(ts) }), ts)
    }
}

/// Reads a semicolon if one comes next.
pub open spec fn skip_semicolon(ts: Seq<Tok>) -> Seq<Tok> {
    if first_kind(ts) == Some(TokenKind::Semicolon) {
        ts.drop_first()
    } else {
        ts
    }
}

pub open spec fn digit_value(c: char) -> int {
    if is_digit(c) {
        c as int - '0' as int
    } else {
        0
    }
}

/// The number that a string of decimal digits denotes.
pub open spec fn decimal_value(s: Seq<char>) -> int
    decreases s.len(),
{
    if s.len() == 0 {
        0
    } else {
        10 * decimal_value(s.drop_last()) + digit_value(s.last())
    }
}

/// A statement: `let`, `return`, or an expression, each with an optional semicolon.
pub open spec fn parse_statement(ts: Seq<Tok>) -> Parsed<StmtModel>
    decreases ts.len(), 6nat,
{
    if first_kind(ts) == Some(TokenKind::Let) {
        let (name, r1) = expect(ts.drop_first(), TokenKind::Identifier);
        match name {
            Err(e) => (Err(e), r1),
            Ok(n) => {
                let (assign, r2) = expect(r1, TokenKind::Assign);
                match assign {
                    Err(e) => (Err(e), r2),
                    Ok(_) => {
                        let (value, r3) = parse_expression(r2, Precedence::Lowest);
                        match value {
                            Err(e) => (Err(e), r3),
                            Ok(v) => (Ok(StmtModel::Let(n.1, v)), skip_semicolon(r3)),
                        }
                    },
                }
            },
        }
    } else if first_kind(ts) == Some(TokenKind::Return) {
        let (value, r) = parse_expression(ts.drop_first(), Precedence::Lowest);
        match value {
            Err(e) => (Err(e), r),
            Ok(v) => (Ok(StmtModel::Return(v)), skip_semicolon(r)),
        }
    } else {
        let (value, r) = parse_expression(ts, Precedence::Lowest);
        match value {
            Err(e) => (Err(e), r),
            Ok(v) => (Ok(StmtModel::Expr(v)), skip_semicolon(r)),
        }
    }
}

/// An expression whose operators all bind tighter than `prec`.
pub open spec fn parse_expression(ts: Seq<Tok>, prec: Precedence) -> Parsed<ExprModel>
    decreases ts.len(), 5nat,
{
    let (prefix, r) = parse_prefix(ts);
    match prefix {
        Err(e) => (Err(e), r),
        Ok(left) => if r.len() < ts.len() {
            parse_infix_loop(r, prec, left)
        } else {
            (Ok(left), r)
        },
    }
}

/// Extends `left` by operators that bind tighter than `prec`, left to right.
pub open spec fn parse_infix_loop(ts: Seq<Tok>, prec: Precedence, left: ExprModel) -> Parsed<
    ExprModel,
>
    decreases ts.len(), 4nat,
{
    match first_kind(ts) {
        Some(k) => if k != TokenKind::Semicolon && precedence_of(k).rank() > prec.rank()
            && has_infix(k) {
            let (extended, r) = parse_infix(ts, left);
            match extended {
                Err(e) => (Err(e), r),
                Ok(l) => if r.len() < ts.len() {
                    parse_infix_loop(r, prec, l)
                } else {
                    (Ok(l), r)
                },
            }
        } else {
            (Ok(left), ts)
        },
        None => (Ok(left), ts),
    }
}

/// The operator or call that starts `ts`, applied to `left`.
pub open spec fn parse_infix(ts: Seq<Tok>, left: ExprModel) -> Parsed<ExprModel>
    decreases ts.len(), 3nat,
{
    if ts.len() == 0 {
        (Ok(left), ts)
    } else if ts[0].0 == TokenKind::LParenthesis {
        let (args, r) = parse_call_arguments(ts.drop_first());
        match args {
            Err(e) => (Err(e), r),
            Ok(a) => (Ok(ExprModel::Call(Box::new(left), a)), r),
        }
    } else {
        let k = ts[0].0;
        let (right, r) = parse_expression(ts.drop_first(), precedence_of(k));
        match right {
            Err(e) => (Err(e), r),
            Ok(rt) => (Ok(ExprModel::Infix(k, Box::new(left), Box::new(rt))), r),
        }
    }
}

/// The arguments of a call and its closing parenthesis, after the opening one.
pub open spec fn parse_call_arguments(ts: Seq<Tok>) -> Parsed<Seq<ExprModel>>
    decreases ts.len(), 8nat,
{
    if first_kind(ts) == Some(TokenKind::RParenthesis) {
        (Ok(seq![]), ts.drop_first())
    } else {
        parse_arguments_from(ts, seq![])
    }
}

/// Arguments after those in `acc`: an expression, then `,` and more, or `)`.
pub open spec fn parse_arguments_from(ts: Seq<Tok>, acc: Seq<ExprModel>) -> Parsed<
    Seq<ExprModel>,
>
    decreases ts.len(), 7nat,
{
    let (arg, r) = parse_expression(ts, Precedence::Lowest);
    match arg {
        Err(e) => (Err(e), r),
        Ok(a) => if first_kind(r) == Some(TokenKind::Comma) && r.len() <= ts.len() {
            parse_arguments_from(r.drop_first(), acc.push(a))
        } else {
            let (close, r2) = expect(r, TokenKind::RParenthesis);
            match close {
                Err(e) => (Err(e), r2),
                Ok(_) => (Ok(acc.push(a)), r2),
            }
        },
    }
}

/// The parameters of a function literal and the closing parenthesis, after the opening one.
pub open spec fn parse_parameters(ts: Seq<Tok>) -> Parsed<Seq<Seq<char>>> {
    if first_kind(ts) == Some(TokenKind::RParenthesis) {
        (Ok(seq![]), ts.drop_first())
    } else {
        parse_parameters_from(ts, seq![])
    }
}

/// Parameters after those in `acc`: a name, then `,` and more, or `)`.
pub open spec fn parse_parameters_from(ts: Seq<Tok>, acc: Seq<Seq<char>>) -> Parsed<
    Seq<Seq<char>>,
>
    decreases ts.len(),
{
    let (name, r) = expect(ts, TokenKind::Identifier);
    match name {
        Err(e) => (Err(e), r),
        Ok(n) => if first_kind(r) == Some(TokenKind::Comma) {
            parse_parameters_from(r.drop_first(), acc.push(n.1))
        } else {
            let (close, r2) = expect(r, TokenKind::RParenthesis);
            match close {
                Err(e) => (Err(e), r2),
                Ok(_) => (Ok(acc.push(n.1)), r2),
            }
        },
    }
}

/// An expression that starts with the first token of `ts`.
pub open spec fn parse_prefix(ts: Seq<Tok>) -> Parsed<ExprModel>
    decreases ts.len(), 2nat,
{
    match first_kind(ts) {
        None => (Err(ParserError::MissingPrefixFn { actual: None }), ts),
        Some(k) => match k {
            TokenKind::Identifier => (Ok(ExprModel::Ident(ts[0].1)), ts.drop_first()),
            TokenKind::Integer => if decimal_value(ts[0].1) <= i64::MAX {
                (Ok(ExprModel::Int(decimal_value(ts[0].1) as i64)), ts.drop_first())
            } else {
                (Err(ParserError::IntegerOutOfRange), ts.drop_first())
            },
            TokenKind::True => (Ok(ExprModel::Bool(true)), ts.drop_first()),
            TokenKind::False => (Ok(ExprModel::Bool(false)), ts.drop_first()),
            TokenKind::Bang | TokenKind::Minus => {
                let (right, r) = parse_expression(ts.drop_first(), Precedence::Prefix);
                match right {
                    Err(e) => (Err(e), r),
                    Ok(rt) => (Ok(ExprModel::Prefix(k, Box::new(rt))), r),
                }
            },
            TokenKind::LParenthesis => {
                let (inner, r) = parse_expression(ts.drop_first(), Precedence::Lowest);
                match inner {
                    Err(e) => (Err(e), r),
                    Ok(e) => {
                        let (close, r2) = expect(r, TokenKind::RParenthesis);
                        match close {
                            Err(err) => (Err(err), r2),
                            Ok(_) => (Ok(e), r2),
                        }
                    },
                }
            },
            TokenKind::If => parse_if(ts),
            TokenKind::Function => parse_function(ts),
            _ => (Err(ParserError::MissingPrefixFn { actual: Some(k) }), ts),
        },
    }
}

/// `if ( condition ) { ... }`, optionally followed by `else { ... }`.
pub open spec fn parse_if(ts: Seq<Tok>) -> Parsed<ExprModel>
    decreases ts.len(), 1nat,
{
    if ts.len() == 0 {
        (Err(ParserError::WrongTokenKind { expected: TokenKind::If, actual: None }), ts)
    } else {
        let (open, r1) = expect(ts.drop_first(), TokenKind::LParenthesis);
        match open {
            Err(e) => (Err(e), r1),
            Ok(_) => {
                let (cond, r2) = parse_expression(r1, Precedence::Lowest);
                match cond {
                    Err(e) => (Err(e), r2),
                    Ok(c) => {
                        let (close, r3) = expect(r2, TokenKind::RParenthesis);
                        match close {
                            Err(e) => (Err(e), r3),
                            Ok(_) => if r3.len() < ts.len() {
                                let (cons, r4) = parse_block(r3);
                                match cons {
                                    Err(e) => (Err(e), r4),
                                    Ok(cs) => if first_kind(r4) == Some(TokenKind::Else)
                                        && r4.len() < ts.len() {
                                        let (alt, r5) = parse_block(r4.drop_first());
                                        match alt {
                                            Err(e) => (Err(e), r5),
                                            Ok(a) => (
                                                Ok(ExprModel::If(Box::new(c), cs, Some(a))),
                                                r5,
                                            ),
                                        }
                                    } else {
                                        (Ok(ExprModel::If(Box::new(c), cs, None)), r4)
                                    },
                                }
                            } else {
                                (Ok(c), r3)
                            },
                        }
                    },
                }
            },
        }
    }
}

/// `fn ( parameters ) { body }`.
pub open spec fn parse_function(ts: Seq<Tok>) -> Parsed<ExprModel>
    decreases ts.len(), 1nat,
{
    if ts.len() == 0 {
        (Err(ParserError::WrongTokenKind { expected: TokenKind::Function, actual: None }), ts)
    } else {
        let (open, r1) = expect(ts.drop_first(), TokenKind::LParenthesis);
        match open {
            Err(e) => (Err(e), r1),
            Ok(_) => {
                let (params, r2) = parse_parameters(r1);
                match params {
                    Err(e) => (Err(e), r2),
                    Ok(ps) => if r2.len() < ts.len() {
                        let (body, r3) = parse_block(r2);
                        match body {
                            Err(e) => (Err(e), r3),
                            Ok(b) => (Ok(ExprModel::Func(ps, b)), r3),
                        }
                    } else {
                        (Ok(ExprModel::Func(ps, seq![])), r2)
                    },
                }
            },
        }
    }
}

/// `{ statements }`; a missing `}` is an error.
pub open spec fn parse_block(ts: Seq<Tok>) -> Parsed<Seq<StmtModel>>
    decreases ts.len(), 0nat,
{
    let (open, r) = expect(ts, TokenKind::LBrace);
    match open {
        Err(e) => (Err(e), r),
        Ok(_) => parse_block_from(r, seq![]),
    }
}

/// The statements of a block after those in `acc`, up to and with the closing brace.
pub open spec fn parse_block_from(ts: Seq<Tok>, acc: Seq<StmtModel>) -> Parsed<Seq<StmtModel>>
    decreases ts.len(), 7nat,
{
    match first_kind(ts) {
        None => (Err(ParserError::WrongTokenKind { expected: TokenKind::RBrace, actual: None }), ts),
        Some(k) => if k == TokenKind::RBrace {
            (Ok(acc), ts.drop_first())
        } else {
            let (stmt, r) = parse_statement(ts);
            match stmt {
                Err(e) => (Err(e), r),
                Ok(s) => if r.len() < ts.len() {
                    parse_block_from(r, acc.push(s))
                } else {
                    (Ok(acc.push(s)), r)
                },
            }
        },
    }
}

/// The tokens left once the parser has skipped to the next statement boundary:
/// past the next semicolon, or to the end.
pub open spec fn recover(ts: Seq<Tok>) -> Seq<Tok>
    decreases ts.len(),
{
    if ts.len() == 0 {
        ts
    } else if ts[0].0 == TokenKind::Semicolon {
        ts.drop_first()
    } else {
        recover(ts.drop_first())
    }
}

/// The statements of a program after `stmts`, and the errors after `errs`.
/// A statement that fails adds its error and the parser goes on after the
/// next statement boundary.
pub open spec fn parse_program_from(
    ts: Seq<Tok>,
    stmts: Seq<StmtModel>,
    errs: Seq<ParserError>,
) -> (Seq<StmtModel>, Seq<ParserError>)
    decreases ts.len(),
{
    if ts.len() == 0 {
        (stmts, errs)
    } else {
        let (stmt, r) = parse_statement(ts);
        match stmt {
            Ok(s) => if r.len() < ts.len() {
                parse_program_from(r, stmts.push(s), errs)
            } else {
                (stmts.push(s), errs)
            },
            Err(e) => if recover(r).len() < ts.len() {
                parse_program_from(recover(r), stmts, errs.push(e))
            } else {
                (stmts, errs.push(e))
            },
        }
    }
}

/// The statements and the errors of a whole program.
pub open spec fn parse_program(ts: Seq<Tok>) -> (Seq<StmtModel>, Seq<ParserError>) {
    parse_program_from(ts, seq![], seq![])
}

} // verus!
