//! Printing an operator expression with all its parentheses and parsing it back.
use vstd::prelude::*;

use crate::expression::ExprModel;
use crate::lexer::{
    digits_end, is_digit, is_letter, is_whitespace, is_word_char, skip_whitespace, token_at,
    tokenize, tokenize_from, word_end,
};
use crate::parser::{kind_text, ParserError};
use crate::precedence::{has_infix, is_binary_operator, precedence_of, Precedence};
use crate::syntax::{
    decimal_value, digit_value, parse_expression, parse_infix, parse_infix_loop, parse_prefix,
    Tok,
};
use crate::text::{decimal_text, digit_char, expr_text};
use crate::token::{keyword_kind, single_char_kind, word_kind, TokenKind};

verus! {

/// A name the lexer reads as one identifier: a letter or `_`, then letters, digits
/// or `_`, and no keyword.
pub open spec fn valid_name(name: Seq<char>) -> bool {
    &&& name.len() >= 1
    &&& is_letter(name[0])
    &&& forall|i: int| 0 <= i < name.len() ==> is_word_char(#[trigger] name[i])
    &&& keyword_kind(name) is None
}

/// An expression built from names, non-negative integers, booleans, and prefix and
/// infix operators: the expressions whose printed form carries all their structure.
pub open spec fn operator_expression(e: ExprModel) -> bool
    decreases e,
{
    match e {
        ExprModel::Ident(name) => valid_name(name),
        ExprModel::Int(n) => n >= 0,
        ExprModel::Bool(_) => true,
        ExprModel::Prefix(op, right) => (op == TokenKind::Bang || op == TokenKind::Minus)
            && operator_expression(*right),
        ExprModel::Infix(op, left, right) => is_binary_operator(op) && operator_expression(*left)
            && operator_expression(*right),
        _ => false,
    }
}

pub open spec fn open_paren() -> Tok {
    (TokenKind::LParenthesis, "("@)
}

pub open spec fn close_paren() -> Tok {
    (TokenKind::RParenthesis, ")"@)
}

/// The tokens of the printed form of an operator expression.
pub open spec fn expr_tokens(e: ExprModel) -> Seq<Tok>
    decreases e,
{
    match e {
        ExprModel::Ident(name) => seq![(TokenKind::Identifier, name)],
        ExprModel::Int(n) => seq![(TokenKind::Integer, decimal_text(n as nat))],
        ExprModel::Bool(b) => if b {
            seq![(TokenKind::True, "true"@)]
        } else {
            seq![(TokenKind::False, "false"@)]
        },
        ExprModel::Prefix(op, right) => seq![open_paren(), (op, kind_text(op))] + expr_tokens(
            *right,
        ) + seq![close_paren()],
        ExprModel::Infix(op, left, right) => seq![open_paren()] + expr_tokens(*left) + seq![
            (op, kind_text(op)),
        ] + expr_tokens(*right) + seq![close_paren()],
        _ => seq![],
    }
}

proof fn lemma_digit_char_value(d: nat)
    requires
        d < 10,
    ensures
        digit_value(digit_char(d)) == d,
{
}

proof fn lemma_decimal_round_trip(n: nat)
    ensures
        decimal_value(decimal_text(n)) == n,
    decreases n,
{
    if n < 10 {
        lemma_digit_char_value(n);
        assert(decimal_text(n).drop_last() =~= Seq::<char>::empty());
        assert(decimal_value(Seq::<char>::empty()) == 0);
        assert(decimal_text(n).last() == digit_char(n));
    } else {
        lemma_decimal_round_trip(n / 10);
        lemma_digit_char_value(n % 10);
        assert(decimal_text(n).drop_last() =~= decimal_text(n / 10));
        assert(decimal_text(n).last() == digit_char(n % 10));
        assert(n == 10 * (n / 10) + n % 10);
    }
}

/// Whether parsing at precedence `prec` stops in front of `rest`.
pub open spec fn stops_before(rest: Seq<Tok>, prec: Precedence) -> bool {
    rest.len() == 0 || rest[0].0 == TokenKind::Semicolon || !(precedence_of(rest[0].0).rank()
        > prec.rank() && has_infix(rest[0].0))
}

/// The printed tokens of an operator expression are one prefix expression, whatever
/// follows them.
proof fn lemma_prefix_round_trip(e: ExprModel, rest: Seq<Tok>)
    requires
        operator_expression(e),
    ensures
        parse_prefix(expr_tokens(e) + rest) == (Ok::<ExprModel, ParserError>(e), rest),
    decreases e,
{
    let ts = expr_tokens(e) + rest;
    match e {
        ExprModel::Ident(name) => {
            assert(ts.drop_first() =~= rest);
        },
        ExprModel::Int(n) => {
            lemma_decimal_round_trip(n as nat);
            assert(ts.drop_first() =~= rest);
        },
        ExprModel::Bool(b) => {
            assert(ts.drop_first() =~= rest);
        },
        ExprModel::Prefix(op, right) => {
            let close_rest = seq![close_paren()] + rest;
            lemma_prefix_round_trip(*right, close_rest);
            let inner = expr_tokens(*right) + close_rest;
            assert(ts =~= seq![open_paren(), (op, kind_text(op))] + inner);
            assert(ts.drop_first() =~= seq![(op, kind_text(op))] + inner);
            assert(ts.drop_first().drop_first() =~= inner);
            assert(parse_infix_loop(close_rest, Precedence::Prefix, *right) == (
                Ok::<ExprModel, ParserError>(*right),
                close_rest,
            ));
            assert(parse_expression(inner, Precedence::Prefix) == (
                Ok::<ExprModel, ParserError>(*right),
                close_rest,
            ));
            assert(parse_prefix(ts.drop_first()) == (Ok::<ExprModel, ParserError>(e), close_rest));
            assert(parse_infix_loop(close_rest, Precedence::Lowest, e) == (
                Ok::<ExprModel, ParserError>(e),
                close_rest,
            ));
            assert(parse_expression(ts.drop_first(), Precedence::Lowest) == (
                Ok::<ExprModel, ParserError>(e),
                close_rest,
            ));
            assert(close_rest.drop_first() =~= rest);
        },
        ExprModel::Infix(op, left, right) => {
            let close_rest = seq![close_paren()] + rest;
            let op_tok: Tok = (op, kind_text(op));
            let right_rest = expr_tokens(*right) + close_rest;
            let op_rest = seq![op_tok] + right_rest;
            lemma_prefix_round_trip(*left, op_rest);
            lemma_prefix_round_trip(*right, close_rest);
            assert(ts =~= seq![open_paren()] + (expr_tokens(*left) + op_rest));
            assert(ts.drop_first() =~= expr_tokens(*left) + op_rest);
            assert(op_rest.drop_first() =~= right_rest);
            let p = precedence_of(op);
            assert(parse_infix_loop(close_rest, p, *right) == (
                Ok::<ExprModel, ParserError>(*right),
                close_rest,
            ));
            assert(parse_expression(right_rest, p) == (
                Ok::<ExprModel, ParserError>(*right),
                close_rest,
            ));
            assert(parse_infix(op_rest, *left) == (Ok::<ExprModel, ParserError>(e), close_rest));
            assert(parse_infix_loop(close_rest, Precedence::Lowest, e) == (
                Ok::<ExprModel, ParserError>(e),
                close_rest,
            ));
            assert(parse_infix_loop(op_rest, Precedence::Lowest, *left) == (
                Ok::<ExprModel, ParserError>(e),
                close_rest,
            ));
            assert(parse_expression(ts.drop_first(), Precedence::Lowest) == (
                Ok::<ExprModel, ParserError>(e),
                close_rest,
            ));
            assert(close_rest.drop_first() =~= rest);
        },
        _ => {},
    }
}

/// Parsing the printed tokens of an operator expression, followed by anything at which
/// an expression of precedence `prec` ends, gives back the expression.
pub proof fn lemma_expression_round_trip(e: ExprModel, rest: Seq<Tok>, prec: Precedence)
    requires
        operator_expression(e),
        stops_before(rest, prec),
    ensures
        parse_expression(expr_tokens(e) + rest, prec) == (Ok::<ExprModel, ParserError>(e), rest),
{
    lemma_prefix_round_trip(e, rest);
    assert(expr_tokens(e).len() >= 1) by {
        reveal_with_fuel(expr_tokens, 2);
    }
    assert(parse_infix_loop(rest, prec, e) == (Ok::<ExprModel, ParserError>(e), rest));
}

/// The tokens of an operator expression printed with all its parentheses parse back
/// into the same tree, with nothing left over.
pub proof fn law_printed_tokens_parse_back(e: ExprModel)
    requires
        operator_expression(e),
    ensures
        parse_expression(expr_tokens(e), Precedence::Lowest) == (
            Ok::<ExprModel, ParserError>(e),
            Seq::<Tok>::empty(),
        ),
{
    lemma_expression_round_trip(e, Seq::<Tok>::empty(), Precedence::Lowest);
    assert(expr_tokens(e) + Seq::<Tok>::empty() =~= expr_tokens(e));
}

proof fn lemma_word_end_at(s: Seq<char>, j: int, k: int)
    requires
        0 <= j <= k <= s.len(),
        forall|m: int| j <= m < k ==> is_word_char(#[trigger] s[m]),
        k == s.len() || !is_word_char(s[k]),
    ensures
        word_end(s, j) == k,
    decreases k - j,
{
    if j < k {
        lemma_word_end_at(s, j + 1, k);
    }
}

proof fn lemma_digits_end_at(s: Seq<char>, j: int, k: int)
    requires
        0 <= j <= k <= s.len(),
        forall|m: int| j <= m < k ==> is_digit(#[trigger] s[m]),
        k == s.len() || !is_digit(s[k]),
    ensures
        digits_end(s, j) == k,
    decreases k - j,
{
    if j < k {
        lemma_digits_end_at(s, j + 1, k);
    }
}

proof fn lemma_decimal_text_digits(n: nat)
    ensures
        decimal_text(n).len() >= 1,
        forall|k: int| 0 <= k < decimal_text(n).len() ==> is_digit(#[trigger] decimal_text(n)[k]),
    decreases n,
{
    if n >= 10 {
        lemma_decimal_text_digits(n / 10);
        let s = decimal_text(n);
        assert forall|k: int| 0 <= k < s.len() implies is_digit(#[trigger] s[k]) by {
            if k < s.len() - 1 {
                assert(s[k] == decimal_text(n / 10)[k]);
            }
        }
    }
}

/// At a position that holds no whitespace, the tokens are the token there and those after it.
proof fn lemma_tokenize_step(s: Seq<char>, i: int)
    requires
        0 <= i < s.len(),
        !is_whitespace(s[i]),
    ensures
        tokenize_from(s, i) == seq![(token_at(s, i).0, s.subrange(i, token_at(s, i).1))]
            + tokenize_from(s, token_at(s, i).1),
{
}

/// A space before position `i + 1` is skipped.
proof fn lemma_tokenize_space(s: Seq<char>, i: int)
    requires
        0 <= i < s.len(),
        s[i] == ' ',
    ensures
        tokenize_from(s, i) == tokenize_from(s, i + 1),
{
    assert(skip_whitespace(s, i) == skip_whitespace(s, i + 1));
}

pub proof fn lemma_operator_texts()
    ensures
        kind_text(TokenKind::Plus) == seq!['+'],
        kind_text(TokenKind::Minus) == seq!['-'],
        kind_text(TokenKind::Asterisk) == seq!['*'],
        kind_text(TokenKind::Slash) == seq!['/'],
        kind_text(TokenKind::Bang) == seq!['!'],
        kind_text(TokenKind::LessThan) == seq!['<'],
        kind_text(TokenKind::GreaterThan) == seq!['>'],
        kind_text(TokenKind::LessOrEqual) == seq!['<', '='],
        kind_text(TokenKind::GreaterOrEqual) == seq!['>', '='],
        kind_text(TokenKind::Equal) == seq!['=', '='],
        kind_text(TokenKind::NotEqual) == seq!['!', '='],
        "("@ == seq!['('],
        ")"@ == seq![')'],
        " "@ == seq![' '],
        "true"@ == seq!['t', 'r', 'u', 'e'],
        "false"@ == seq!['f', 'a', 'l', 's', 'e'],
{
    reveal_strlit("+");
    reveal_strlit("-");
    reveal_strlit("*");
    reveal_strlit("/");
    reveal_strlit("!");
    reveal_strlit("<");
    reveal_strlit(">");
    reveal_strlit("<=");
    reveal_strlit(">=");
    reveal_strlit("==");
    reveal_strlit("!=");
    reveal_strlit("(");
    reveal_strlit(")");
    reveal_strlit(" ");
    reveal_strlit("true");
    reveal_strlit("false");
    assert("<="@ =~= seq!['<', '=']);
    assert(">="@ =~= seq!['>', '=']);
    assert("=="@ =~= seq!['=', '=']);
    assert("!="@ =~= seq!['!', '=']);
    assert("true"@ =~= seq!['t', 'r', 'u', 'e']);
    assert("false"@ =~= seq!['f', 'a', 'l', 's', 'e']);
}

/// The printed form of an operator expression starts with a letter, a digit or `(`.
proof fn lemma_text_start(e: ExprModel)
    requires
        operator_expression(e),
    ensures
        expr_text(e).len() >= 1,
        is_word_char(expr_text(e)[0]) || expr_text(e)[0] == '(',
{
    lemma_operator_texts();
    match e {
        ExprModel::Int(n) => {
            lemma_decimal_text_digits(n as nat);
        },
        _ => {},
    }
}

/// A binary operator's text, followed by a space, is read as that operator.
proof fn lemma_binary_operator_token(s: Seq<char>, j: int, op: TokenKind)
    requires
        is_binary_operator(op),
        0 <= j,
        j + kind_text(op).len() < s.len(),
        s.subrange(j, j + kind_text(op).len()) == kind_text(op),
        s[j + kind_text(op).len()] == ' ',
    ensures
        token_at(s, j) == (op, j + kind_text(op).len()),
{
    lemma_operator_texts();
    let t = kind_text(op);
    assert(s[j] == t[0]);
    if t.len() == 2 {
        assert(s[j + 1] == t[1]);
    }
}

/// The printed form of an operator expression, found at position `i` of `s` and not
/// followed by a letter or digit, is read as the expression's tokens.
proof fn lemma_lex_printed(e: ExprModel, s: Seq<char>, i: int)
    requires
        operator_expression(e),
        0 <= i,
        i + expr_text(e).len() <= s.len(),
        s.subrange(i, i + expr_text(e).len()) == expr_text(e),
        i + expr_text(e).len() == s.len() || !is_word_char(s[i + expr_text(e).len()]),
    ensures
        tokenize_from(s, i) == expr_tokens(e) + tokenize_from(s, i + expr_text(e).len()),
    decreases e, 1nat,
{
    lemma_operator_texts();
    let t = expr_text(e);
    let n = t.len();
    assert(forall|k: int| 0 <= k < n ==> s[i + k] == #[trigger] t[k]) by {
        assert forall|k: int| 0 <= k < n implies s[i + k] == #[trigger] t[k] by {
            assert(s.subrange(i, i + n)[k] == s[i + k]);
        }
    }
    match e {
        ExprModel::Ident(name) => {
            assert forall|m: int| i + 1 <= m < i + n implies is_word_char(#[trigger] s[m]) by {
                assert(s[i + (m - i)] == t[m - i]);
            }
            assert(s[i] == t[0]);
            lemma_word_end_at(s, i + 1, i + n);
            assert(s.subrange(i, i + n) == name);
            lemma_tokenize_step(s, i);
        },
        ExprModel::Int(v) => {
            lemma_decimal_text_digits(v as nat);
            assert forall|m: int| i + 1 <= m < i + n implies is_digit(#[trigger] s[m]) by {
                assert(s[i + (m - i)] == t[m - i]);
            }
            assert(s[i] == t[0]);
            lemma_digits_end_at(s, i + 1, i + n);
            lemma_tokenize_step(s, i);
        },
        ExprModel::Bool(b) => {
            lemma_word_end_at(s, i + 1, i + n);
            assert(s.subrange(i, i + n) == t);
            if b {
                assert(word_kind(t) == TokenKind::True);
            } else {
                assert(word_kind(t) == TokenKind::False);
            }
            lemma_tokenize_step(s, i);
        },
        ExprModel::Prefix(..) => {
            lemma_lex_printed_prefix(e, s, i);
        },
        ExprModel::Infix(..) => {
            lemma_lex_printed_infix(e, s, i);
        },
        _ => {},
    }
}

/// Positions `j..j + u.len()` of `s` hold the part of `t` that starts at `offset`.
proof fn lemma_sub_text(s: Seq<char>, i: int, t: Seq<char>, offset: int, u: Seq<char>)
    requires
        0 <= i,
        0 <= offset,
        offset + u.len() <= t.len(),
        i + t.len() <= s.len(),
        forall|k: int| 0 <= k < t.len() ==> s[i + k] == #[trigger] t[k],
        forall|k: int| 0 <= k < u.len() ==> t[offset + k] == #[trigger] u[k],
    ensures
        s.subrange(i + offset, i + offset + u.len()) == u,
{
    assert forall|k: int| 0 <= k < u.len() implies #[trigger] s.subrange(
        i + offset,
        i + offset + u.len(),
    )[k] == u[k] by {
        assert(s[i + (offset + k)] == t[offset + k]);
    }
    assert(s.subrange(i + offset, i + offset + u.len()) =~= u);
}

/// A single-character token at `j`.
proof fn lemma_single_token(s: Seq<char>, j: int, c: char, k: TokenKind)
    requires
        0 <= j < s.len(),
        s[j] == c,
        c == '(' || c == ')',
        k == single_char_kind(c),
    ensures
        tokenize_from(s, j) == seq![(k, seq![c])] + tokenize_from(s, j + 1),
{
    lemma_tokenize_step(s, j);
    assert(s.subrange(j, j + 1) =~= seq![c]);
}

/// The case of a prefix expression.
#[verifier::spinoff_prover]
proof fn lemma_lex_printed_prefix(e: ExprModel, s: Seq<char>, i: int)
    requires
        operator_expression(e),
        e is Prefix,
        0 <= i,
        i + expr_text(e).len() <= s.len(),
        s.subrange(i, i + expr_text(e).len()) == expr_text(e),
    ensures
        tokenize_from(s, i) == expr_tokens(e) + tokenize_from(s, i + expr_text(e).len()),
    decreases e, 0nat,
{
    lemma_operator_texts();
    let t = expr_text(e);
    let n = t.len() as int;
    assert forall|k: int| 0 <= k < n implies s[i + k] == #[trigger] t[k] by {
        assert(s.subrange(i, i + n)[k] == s[i + k]);
    }
    let op = e->Prefix_0;
    let right = e->Prefix_1;
    let rt = expr_text(*right);
    let m = rt.len() as int;
    let ot = kind_text(op);
    assert(ot.len() == 1);
    assert(t =~= seq!['('] + ot + rt + seq![')']);
    assert(n == m + 3);
    lemma_text_start(*right);
    let rest = tokenize_from(s, i + n);
    // `)`
    assert(s[i + 2 + m] == t[m + 2]);
    lemma_single_token(s, i + 2 + m, ')', TokenKind::RParenthesis);
    assert(tokenize_from(s, i + 2 + m) == seq![close_paren()] + rest);
    // the operand, followed by `)`
    lemma_sub_text(s, i, t, 2, rt);
    lemma_lex_printed(*right, s, i + 2);
    assert(tokenize_from(s, i + 2) == expr_tokens(*right) + (seq![close_paren()] + rest));
    // the operator, which the operand does not extend
    assert(s[i + 1] == t[1] && t[1] == ot[0]);
    assert(s[i + 2] == t[2] && t[2] == rt[0]);
    lemma_tokenize_step(s, i + 1);
    assert(token_at(s, i + 1) == (op, i + 2));
    assert(s.subrange(i + 1, i + 2) =~= ot);
    assert(tokenize_from(s, i + 1) == seq![(op, ot)] + tokenize_from(s, i + 2));
    // `(`
    assert(s[i] == t[0]);
    lemma_single_token(s, i, '(', TokenKind::LParenthesis);
    assert(tokenize_from(s, i) == seq![open_paren()] + tokenize_from(s, i + 1));
    assert(expr_tokens(e) + rest =~= seq![open_paren()] + (seq![(op, ot)] + (expr_tokens(*right)
        + (seq![close_paren()] + rest))));
}

/// The case of an infix expression.
#[verifier::spinoff_prover]
#[verifier::rlimit(50)]
proof fn lemma_lex_printed_infix(e: ExprModel, s: Seq<char>, i: int)
    requires
        operator_expression(e),
        e is Infix,
        0 <= i,
        i + expr_text(e).len() <= s.len(),
        s.subrange(i, i + expr_text(e).len()) == expr_text(e),
    ensures
        tokenize_from(s, i) == expr_tokens(e) + tokenize_from(s, i + expr_text(e).len()),
    decreases e, 0nat,
{
    lemma_operator_texts();
    let t = expr_text(e);
    let n = t.len() as int;
    assert forall|k: int| 0 <= k < n implies s[i + k] == #[trigger] t[k] by {
        assert(s.subrange(i, i + n)[k] == s[i + k]);
    }
    let op = e->Infix_0;
    let left = e->Infix_1;
    let right = e->Infix_2;
    let lt = expr_text(*left);
    let ot = kind_text(op);
    let rt = expr_text(*right);
    let a = lt.len() as int;
    let o = ot.len() as int;
    let m = rt.len() as int;
    assert(t =~= seq!['('] + lt + seq![' '] + ot + seq![' '] + rt + seq![')']);
    assert(n == a + o + m + 4);
    let space1 = i + 1 + a;
    let space2 = space1 + 1 + o;
    let close_at = space2 + 1 + m;
    let rest = tokenize_from(s, i + n);
    // `)`
    assert(s[close_at] == t[a + o + m + 3]);
    lemma_single_token(s, close_at, ')', TokenKind::RParenthesis);
    let after_right = seq![close_paren()] + rest;
    assert(tokenize_from(s, close_at) == after_right);
    // the right operand, followed by `)`
    lemma_sub_text(s, i, t, a + o + 3, rt);
    lemma_lex_printed(*right, s, space2 + 1);
    let after_op = expr_tokens(*right) + after_right;
    assert(tokenize_from(s, space2 + 1) == after_op);
    // the operator between two spaces
    assert(s[space2] == t[a + o + 2]);
    lemma_tokenize_space(s, space2);
    lemma_sub_text(s, i, t, a + 2, ot);
    assert(s[space1 + 1] == t[a + 2]);
    lemma_binary_operator_token(s, space1 + 1, op);
    lemma_tokenize_step(s, space1 + 1);
    let after_left = seq![(op, ot)] + after_op;
    assert(tokenize_from(s, space1 + 1) == after_left);
    assert(s[space1] == t[a + 1]);
    lemma_tokenize_space(s, space1);
    // the left operand, followed by a space
    lemma_sub_text(s, i, t, 1, lt);
    lemma_lex_printed(*left, s, i + 1);
    assert(tokenize_from(s, i + 1) == expr_tokens(*left) + after_left);
    // `(`
    assert(s[i] == t[0]);
    lemma_single_token(s, i, '(', TokenKind::LParenthesis);
    assert(tokenize_from(s, i) == seq![open_paren()] + (expr_tokens(*left) + after_left));
    assert(expr_tokens(e) + rest =~= seq![open_paren()] + (expr_tokens(*left) + after_left));
}

/// Display round trip: an operator expression printed with parentheses around every
/// prefix and infix expression, read by the lexer and parsed again, is the same tree.
pub proof fn law_display_round_trip(e: ExprModel)
    requires
        operator_expression(e),
    ensures
        parse_expression(tokenize(expr_text(e)), Precedence::Lowest) == (
            Ok::<ExprModel, ParserError>(e),
            Seq::<Tok>::empty(),
        ),
{
    let s = expr_text(e);
    assert(s.subrange(0, s.len() as int) =~= s);
    lemma_lex_printed(e, s, 0);
    assert(tokenize_from(s, s.len() as int) =~= Seq::<Tok>::empty());
    assert(tokenize(s) =~= expr_tokens(e));
    law_printed_tokens_parse_back(e);
}

} // verus!
