use vstd::prelude::*;

use crate::expression::{
    exprs_model, names_of, Boolean, Call, ExprModel, Expression, FunctionLiteral, Identifier, If,
    Infix, IntegerLiteral, Prefix,
};
use crate::lexer::Tokens;
use crate::precedence::{infix_handler_exists, token_precedence, Precedence};
use crate::program::{texts, Program};
use crate::statement::{self, stmts_model, Block, Statement, StmtModel};
use crate::syntax::{self, decimal_value, digit_value, expect, first_kind, Tok};
use crate::token::{Token, TokenKind};

verus! {

/// Why a statement could not be parsed.
#[derive(Debug, Clone, Copy, PartialEq, Eq, Structural)]
pub enum ParserError {
    /// A token of kind `expected` was required; `actual` came (`None`: the input ended).
    WrongTokenKind { expected: TokenKind, actual: Option<TokenKind> },
    /// No expression starts with this token (`None`: the input ended).
    MissingPrefixFn { actual: Option<TokenKind> },
    /// An integer literal that does not fit in 64 bits.
    IntegerOutOfRange,
}

/// The tokens that `o` holds: none or one.
pub open spec fn opt_tokens(o: Option<Token>) -> Seq<Tok> {
    match o {
        Some(t) => seq![t@],
        None => seq![],
    }
}

/// Reads a token stream with one token of lookahead.
#[derive(Debug)]
pub struct Parser {
    tokens: Tokens,
    token: Option<Token>,
    peek: Option<Token>,
}

impl Parser {
    pub closed spec fn wf(&self) -> bool {
        &&& self.tokens.wf()
        &&& self.token is None ==> self.peek is None
        &&& self.peek is None ==> self.tokens.remaining().len() == 0
    }

    /// The tokens not yet consumed, the current one first.
    pub closed spec fn remaining(&self) -> Seq<Tok> {
        opt_tokens(self.token) + opt_tokens(self.peek) + self.tokens.remaining()
    }

    pub fn new(tokens: Tokens) -> (r: Parser)
        requires
            tokens.wf(),
        ensures
            r.wf(),
            r.remaining() == tokens.remaining(),
    {
        let mut tokens = tokens;
        let ghost all = tokens.remaining();
        let token = tokens.next();
        let peek = if token.is_some() {
            tokens.next()
        } else {
            None
        };
        let r = Parser { tokens, token, peek };
        assert(r.remaining() =~= all);
        r
    }

    /// The current token.
    pub fn token(&self) -> (r: Option<&Token>)
        requires
            self.wf(),
        ensures
            match r {
                Some(t) => self.remaining().len() > 0 && t@ == self.remaining()[0],
                None => self.remaining().len() == 0,
            },
    {
        self.token.as_ref()
    }

    /// The token after the current one.
    pub fn peek(&self) -> (r: Option<&Token>)
        requires
            self.wf(),
        ensures
            match r {
                Some(t) => self.remaining().len() > 1 && t@ == self.remaining()[1],
                None => self.remaining().len() <= 1,
            },
    {
        self.peek.as_ref()
    }

    /// The kind of the current token.
    pub fn current_kind(&self) -> (r: Option<TokenKind>)
        requires
            self.wf(),
        ensures
            r == first_kind(self.remaining()),
    {
        match &self.token {
            Some(t) => Some(t.kind),
            None => None,
        }
    }

    /// Moves on by one token.
    pub fn advance(&mut self)
        requires
            old(self).wf(),
        ensures
            final(self).wf(),
            old(self).remaining().len() > 0 ==> final(self).remaining() == old(
                self,
            ).remaining().drop_first(),
            old(self).remaining().len() == 0 ==> final(self).remaining().len() == 0,
    {
        let ghost before = self.remaining();
        self.token = self.peek.take();
        if self.token.is_some() {
            self.peek = self.tokens.next();
        }
        assert(before.len() > 0 ==> self.remaining() =~= before.drop_first());
    }

    /// Takes the current token out and moves on by one.
    fn take_current(&mut self) -> (r: Option<Token>)
        requires
            old(self).wf(),
        ensures
            final(self).wf(),
            match r {
                Some(t) => {
                    &&& old(self).remaining().len() > 0
                    &&& t@ == old(self).remaining()[0]
                    &&& final(self).remaining() == old(self).remaining().drop_first()
                },
                None => old(self).remaining().len() == 0 && final(self).remaining().len() == 0,
            },
    {
        let ghost before = self.remaining();
        let t = self.token.take();
        self.token = self.peek.take();
        if self.token.is_some() {
            self.peek = self.tokens.next();
        }
        assert(before.len() > 0 ==> self.remaining() =~= before.drop_first());
        t
    }

    /// Takes the current token if it has kind `expected`; otherwise reports it and stays.
    pub fn expect_token_with_kind(&mut self, expected: TokenKind) -> (r: Result<Token, ParserError>)
        requires
            old(self).wf(),
        ensures
            final(self).wf(),
            final(self).remaining() == expect(old(self).remaining(), expected).1,
            match r {
                Ok(t) => expect(old(self).remaining(), expected).0 == Ok::<Tok, ParserError>(t@),
                Err(e) => expect(old(self).remaining(), expected).0 == Err::<Tok, ParserError>(e),
            },
    {
        let actual = self.current_kind();
        if actual == Some(expected) {
            match self.take_current() {
                Some(t) => Ok(t),
                None => Err(ParserError::WrongTokenKind { expected, actual }),
            }
        } else {
            Err(ParserError::WrongTokenKind { expected, actual })
        }
    }
}

/// `r` is the parse result that the model `s` describes.
pub open spec fn expr_matches(r: Result<Expression, ParserError>, s: Result<ExprModel, ParserError>) -> bool {
    match r {
        Ok(e) => s == Ok::<ExprModel, ParserError>(e.model()),
        Err(err) => s == Err::<ExprModel, ParserError>(err),
    }
}

pub open spec fn stmt_matches(r: Result<Statement, ParserError>, s: Result<StmtModel, ParserError>) -> bool {
    match r {
        Ok(st) => s == Ok::<StmtModel, ParserError>(st.model()),
        Err(err) => s == Err::<StmtModel, ParserError>(err),
    }
}

pub open spec fn block_matches(
    r: Result<Block, ParserError>,
    s: Result<Seq<StmtModel>, ParserError>,
) -> bool {
    match r {
        Ok(b) => s == Ok::<Seq<StmtModel>, ParserError>(stmts_model(b.statements@)),
        Err(err) => s == Err::<Seq<StmtModel>, ParserError>(err),
    }
}

pub open spec fn args_matches(
    r: Result<Vec<Expression>, ParserError>,
    s: Result<Seq<ExprModel>, ParserError>,
) -> bool {
    match r {
        Ok(a) => s == Ok::<Seq<ExprModel>, ParserError>(exprs_model(a@)),
        Err(err) => s == Err::<Seq<ExprModel>, ParserError>(err),
    }
}

pub open spec fn params_matches(
    r: Result<Vec<Identifier>, ParserError>,
    s: Result<Seq<Seq<char>>, ParserError>,
) -> bool {
    match r {
        Ok(ps) => s == Ok::<Seq<Seq<char>>, ParserError>(names_of(ps@)),
        Err(err) => s == Err::<Seq<Seq<char>>, ParserError>(err),
    }
}

proof fn lemma_exprs_model_push(es: Seq<Expression>, e: Expression)
    ensures
        exprs_model(es.push(e)) == exprs_model(es).push(e.model()),
{
    assert(es.push(e).drop_last() =~= es);
}

proof fn lemma_stmts_model_push(ss: Seq<Statement>, s: Statement)
    ensures
        stmts_model(ss.push(s)) == stmts_model(ss).push(s.model()),
{
    assert(ss.push(s).drop_last() =~= ss);
}

/// The value of an integer literal, or `None` if it does not fit in an `i64`.
pub fn integer_value(literal: &str) -> (r: Option<i64>)
    ensures
        match r {
            Some(v) => decimal_value(literal@) <= i64::MAX && v == decimal_value(literal@),
            None => decimal_value(literal@) > i64::MAX,
        },
{
    let n = literal.unicode_len();
    let mut value: i64 = 0;
    let mut i: usize = 0;
    while i < n
        invariant
            n == literal@.len(),
            i <= n,
            value == decimal_value(literal@.subrange(0, i as int)),
        decreases n - i,
    {
        let c = literal.get_char(i);
        let d: i64 = if '0' <= c && c <= '9' {
            (c as u32 - '0' as u32) as i64
        } else {
            0
        };
        let ghost prefix = literal@.subrange(0, i as int);
        let ghost next = literal@.subrange(0, i + 1);
        assert(next.drop_last() =~= prefix);
        assert(d == digit_value(c));
        proof {
            lemma_decimal_value_grows(literal@, i + 1);
        }
        if value > 922337203685477580 || (value == 922337203685477580 && d > 7) {
            assert(decimal_value(next) > i64::MAX);
            assert(literal@.subrange(0, n as int) =~= literal@);
            assert(decimal_value(literal@.subrange(0, n as int)) >= decimal_value(next));
            return None;
        }
        value = value * 10 + d;
        i = i + 1;
    }
    assert(literal@.subrange(0, n as int) =~= literal@);
    Some(value)
}

/// The value of a prefix of a digit string bounds the value of every longer prefix.
proof fn lemma_decimal_value_grows(s: Seq<char>, i: int)
    requires
        0 <= i <= s.len(),
    ensures
        decimal_value(s.subrange(0, i)) >= 0,
        forall|j: int|
            i <= j <= s.len() ==> #[trigger] decimal_value(s.subrange(0, j)) >= decimal_value(
                s.subrange(0, i),
            ),
    decreases s.len() - i,
{
    lemma_decimal_value_nonneg(s.subrange(0, i));
    if i < s.len() {
        lemma_decimal_value_grows(s, i + 1);
        assert(s.subrange(0, i + 1).drop_last() =~= s.subrange(0, i));
        assert(decimal_value(s.subrange(0, i + 1)) >= decimal_value(s.subrange(0, i)));
        assert forall|j: int| i <= j <= s.len() implies decimal_value(s.subrange(0, j))
            >= decimal_value(s.subrange(0, i)) by {
            if j > i {
                assert(decimal_value(s.subrange(0, j)) >= decimal_value(s.subrange(0, i + 1)));
            }
        }
    }
}

proof fn lemma_decimal_value_nonneg(s: Seq<char>)
    ensures
        decimal_value(s) >= 0,
    decreases s.len(),
{
    if s.len() > 0 {
        lemma_decimal_value_nonneg(s.drop_last());
    }
}

impl Expression {
    /// Parses an expression whose operators bind tighter than `precedence`.
    pub fn parse(parser: &mut Parser, precedence: Precedence) -> (r: Result<Expression, ParserError>)
        requires
            old(parser).wf(),
        ensures
            final(parser).wf(),
            expr_matches(r, syntax::parse_expression(old(parser).remaining(), precedence).0),
            final(parser).remaining() == syntax::parse_expression(
                old(parser).remaining(),
                precedence,
            ).1,
            final(parser).remaining().len() <= old(parser).remaining().len(),
            r is Ok ==> final(parser).remaining().len() < old(parser).remaining().len(),
        decreases old(parser).remaining().len(), 5nat,
    {
        let ghost ts = parser.remaining();
        let mut left = match parse_prefix_expression(parser) {
            Ok(e) => e,
            Err(e) => {
                return Err(e);
            },
        };
        loop
            invariant
                parser.wf(),
                ts == old(parser).remaining(),
                parser.remaining().len() < ts.len(),
                syntax::parse_expression(ts, precedence) == syntax::parse_infix_loop(
                    parser.remaining(),
                    precedence,
                    left.model(),
                ),
            decreases parser.remaining().len(),
        {
            let kind = match parser.current_kind() {
                Some(k) => k,
                None => {
                    return Ok(left);
                },
            };
            if kind == TokenKind::Semicolon || !token_precedence(kind).binds_tighter(&precedence)
                || !infix_handler_exists(kind) {
                return Ok(left);
            }
            left = match parse_infix_expression(parser, left) {
                Ok(e) => e,
                Err(e) => {
                    return Err(e);
                },
            };
        }
    }
}

/// Parses the operator or call at the current token, with `left` as its left operand.
fn parse_infix_expression(parser: &mut Parser, left: Expression) -> (r: Result<
    Expression,
    ParserError,
>)
    requires
        old(parser).wf(),
        old(parser).remaining().len() > 0,
    ensures
        final(parser).wf(),
        expr_matches(r, syntax::parse_infix(old(parser).remaining(), left.model()).0),
        final(parser).remaining() == syntax::parse_infix(old(parser).remaining(), left.model()).1,
        final(parser).remaining().len() <= old(parser).remaining().len(),
        r is Ok ==> final(parser).remaining().len() < old(parser).remaining().len(),
    decreases old(parser).remaining().len(), 3nat,
{
    let ghost ts = parser.remaining();
    let token = match parser.take_current() {
        Some(t) => t,
        None => {
            return Ok(left);
        },
    };
    if token.kind == TokenKind::LParenthesis {
        let arguments = match parse_call_arguments(parser) {
            Ok(a) => a,
            Err(e) => {
                return Err(e);
            },
        };
        Ok(Expression::Call(Call { token, function: Box::new(left), arguments }))
    } else {
        let prec = token_precedence(token.kind);
        let right = match Expression::parse(parser, prec) {
            Ok(e) => e,
            Err(e) => {
                return Err(e);
            },
        };
        Ok(Expression::Infix(Infix { token, left: Box::new(left), right: Box::new(right) }))
    }
}

/// Parses the arguments of a call, after its opening parenthesis, and the closing one.
fn parse_call_arguments(parser: &mut Parser) -> (r: Result<Vec<Expression>, ParserError>)
    requires
        old(parser).wf(),
    ensures
        final(parser).wf(),
        args_matches(r, syntax::parse_call_arguments(old(parser).remaining()).0),
        final(parser).remaining() == syntax::parse_call_arguments(old(parser).remaining()).1,
        final(parser).remaining().len() <= old(parser).remaining().len(),
    decreases old(parser).remaining().len(), 8nat,
{
    let ghost ts = parser.remaining();
    let mut arguments: Vec<Expression> = Vec::new();
    if parser.current_kind() == Some(TokenKind::RParenthesis) {
        parser.advance();
        return Ok(arguments);
    }
    loop
        invariant
            parser.wf(),
            ts == old(parser).remaining(),
            parser.remaining().len() <= ts.len(),
            syntax::parse_call_arguments(ts) == syntax::parse_arguments_from(
                parser.remaining(),
                exprs_model(arguments@),
            ),
        decreases parser.remaining().len(),
    {
        let ghost before = arguments@;
        let argument = match Expression::parse(parser, Precedence::Lowest) {
            Ok(e) => e,
            Err(e) => {
                return Err(e);
            },
        };
        proof {
            lemma_exprs_model_push(before, argument);
        }
        arguments.push(argument);
        if parser.current_kind() == Some(TokenKind::Comma) {
            parser.advance();
        } else {
            match parser.expect_token_with_kind(TokenKind::RParenthesis) {
                Ok(_) => {
                    return Ok(arguments);
                },
                Err(e) => {
                    return Err(e);
                },
            }
        }
    }
}

/// Parses the parameters of a function literal, after its opening parenthesis, and the
/// closing one.
fn parse_function_parameters(parser: &mut Parser) -> (r: Result<Vec<Identifier>, ParserError>)
    requires
        old(parser).wf(),
    ensures
        final(parser).wf(),
        params_matches(r, syntax::parse_parameters(old(parser).remaining()).0),
        final(parser).remaining() == syntax::parse_parameters(old(parser).remaining()).1,
        final(parser).remaining().len() <= old(parser).remaining().len(),
{
    let ghost ts = parser.remaining();
    let mut parameters: Vec<Identifier> = Vec::new();
    assert(names_of(parameters@) =~= seq![]);
    if parser.current_kind() == Some(TokenKind::RParenthesis) {
        parser.advance();
        return Ok(parameters);
    }
    loop
        invariant
            parser.wf(),
            ts == old(parser).remaining(),
            parser.remaining().len() <= ts.len(),
            syntax::parse_parameters(ts) == syntax::parse_parameters_from(
                parser.remaining(),
                names_of(parameters@),
            ),
        decreases parser.remaining().len(),
    {
        let ghost before = parameters@;
        let token = match parser.expect_token_with_kind(TokenKind::Identifier) {
            Ok(t) => t,
            Err(e) => {
                return Err(e);
            },
        };
        let parameter = Identifier { token };
        parameters.push(parameter);
        assert(names_of(parameters@) =~= names_of(before).push(parameter.name()));
        if parser.current_kind() == Some(TokenKind::Comma) {
            parser.advance();
        } else {
            match parser.expect_token_with_kind(TokenKind::RParenthesis) {
                Ok(_) => {
                    return Ok(parameters);
                },
                Err(e) => {
                    return Err(e);
                },
            }
        }
    }
}

/// Parses the expression that starts at the current token.
fn parse_prefix_expression(parser: &mut Parser) -> (r: Result<Expression, ParserError>)
    requires
        old(parser).wf(),
    ensures
        final(parser).wf(),
        expr_matches(r, syntax::parse_prefix(old(parser).remaining()).0),
        final(parser).remaining() == syntax::parse_prefix(old(parser).remaining()).1,
        final(parser).remaining().len() <= old(parser).remaining().len(),
        r is Ok ==> final(parser).remaining().len() < old(parser).remaining().len(),
    decreases old(parser).remaining().len(), 2nat,
{
    let kind = match parser.current_kind() {
        Some(k) => k,
        None => {
            return Err(ParserError::MissingPrefixFn { actual: None });
        },
    };
    match kind {
        TokenKind::Identifier => match parser.take_current() {
            Some(token) => Ok(Expression::Identifier(Identifier { token })),
            None => Err(ParserError::MissingPrefixFn { actual: None }),
        },
        TokenKind::Integer => match parser.take_current() {
            Some(token) => match integer_value(token.literal.as_str()) {
                Some(value) => Ok(Expression::IntegerLiteral(IntegerLiteral { value })),
                None => Err(ParserError::IntegerOutOfRange),
            },
            None => Err(ParserError::MissingPrefixFn { actual: None }),
        },
        TokenKind::True | TokenKind::False => match parser.take_current() {
            Some(token) => Ok(
                Expression::Boolean(Boolean { token, value: kind == TokenKind::True }),
            ),
            None => Err(ParserError::MissingPrefixFn { actual: None }),
        },
        TokenKind::Bang | TokenKind::Minus => Prefix::parse_prefix(parser),
        TokenKind::LParenthesis => Grouped::parse_prefix(parser),
        TokenKind::If => If::parse_prefix(parser),
        TokenKind::Function => FunctionLiteral::parse_prefix(parser),
        _ => Err(ParserError::MissingPrefixFn { actual: Some(kind) }),
    }
}

impl Prefix {
    /// Parses `!` or `-` and its operand.
    pub fn parse_prefix(parser: &mut Parser) -> (r: Result<Expression, ParserError>)
        requires
            old(parser).wf(),
            first_kind(old(parser).remaining()) == Some(TokenKind::Bang) || first_kind(
                old(parser).remaining(),
            ) == Some(TokenKind::Minus),
        ensures
            final(parser).wf(),
            expr_matches(r, syntax::parse_prefix(old(parser).remaining()).0),
            final(parser).remaining() == syntax::parse_prefix(old(parser).remaining()).1,
            final(parser).remaining().len() < old(parser).remaining().len(),
        decreases old(parser).remaining().len(), 1nat,
    {
        let token = match parser.take_current() {
            Some(t) => t,
            None => {
                return Err(ParserError::MissingPrefixFn { actual: None });
            },
        };
        let right = match Expression::parse(parser, Precedence::Prefix) {
            Ok(e) => e,
            Err(e) => {
                return Err(e);
            },
        };
        Ok(Expression::Prefix(Prefix { token, right: Box::new(right) }))
    }
}

/// The handler of a parenthesised expression.
pub struct Grouped;

impl Grouped {
    pub fn new() -> (r: Grouped) {
        Grouped
    }

    /// Parses `( expression )`; the parentheses leave no node of their own.
    pub fn parse_prefix(parser: &mut Parser) -> (r: Result<Expression, ParserError>)
        requires
            old(parser).wf(),
            first_kind(old(parser).remaining()) == Some(TokenKind::LParenthesis),
        ensures
            final(parser).wf(),
            expr_matches(r, syntax::parse_prefix(old(parser).remaining()).0),
            final(parser).remaining() == syntax::parse_prefix(old(parser).remaining()).1,
            final(parser).remaining().len() < old(parser).remaining().len(),
        decreases old(parser).remaining().len(), 1nat,
    {
        parser.advance();
        let inner = match Expression::parse(parser, Precedence::Lowest) {
            Ok(e) => e,
            Err(e) => {
                return Err(e);
            },
        };
        match parser.expect_token_with_kind(TokenKind::RParenthesis) {
            Ok(_) => Ok(inner),
            Err(e) => Err(e),
        }
    }
}

impl If {
    /// Parses `if ( condition ) { ... }` with an optional `else { ... }`.
    pub fn parse_prefix(parser: &mut Parser) -> (r: Result<Expression, ParserError>)
        requires
            old(parser).wf(),
            first_kind(old(parser).remaining()) == Some(TokenKind::If),
        ensures
            final(parser).wf(),
            expr_matches(r, syntax::parse_prefix(old(parser).remaining()).0),
            final(parser).remaining() == syntax::parse_prefix(old(parser).remaining()).1,
            final(parser).remaining().len() < old(parser).remaining().len(),
        decreases old(parser).remaining().len(), 1nat,
    {
        parser.advance();
        match parser.expect_token_with_kind(TokenKind::LParenthesis) {
            Ok(_) => {},
            Err(e) => {
                return Err(e);
            },
        }
        let condition = match Expression::parse(parser, Precedence::Lowest) {
            Ok(e) => e,
            Err(e) => {
                return Err(e);
            },
        };
        match parser.expect_token_with_kind(TokenKind::RParenthesis) {
            Ok(_) => {},
            Err(e) => {
                return Err(e);
            },
        }
        let consequence = match Block::parse(parser) {
            Ok(b) => b,
            Err(e) => {
                return Err(e);
            },
        };
        let alternative = if parser.current_kind() == Some(TokenKind::Else) {
            parser.advance();
            match Block::parse(parser) {
                Ok(b) => Some(b),
                Err(e) => {
                    return Err(e);
                },
            }
        } else {
            None
        };
        Ok(Expression::If(If { condition: Box::new(condition), consequence, alternative }))
    }
}

impl FunctionLiteral {
    /// Parses `fn ( parameters ) { body }`.
    pub fn parse_prefix(parser: &mut Parser) -> (r: Result<Expression, ParserError>)
        requires
            old(parser).wf(),
            first_kind(old(parser).remaining()) == Some(TokenKind::Function),
        ensures
            final(parser).wf(),
            expr_matches(r, syntax::parse_prefix(old(parser).remaining()).0),
            final(parser).remaining() == syntax::parse_prefix(old(parser).remaining()).1,
            final(parser).remaining().len() < old(parser).remaining().len(),
        decreases old(parser).remaining().len(), 1nat,
    {
        let token = match parser.take_current() {
            Some(t) => t,
            None => {
                return Err(ParserError::MissingPrefixFn { actual: None });
            },
        };
        match parser.expect_token_with_kind(TokenKind::LParenthesis) {
            Ok(_) => {},
            Err(e) => {
                return Err(e);
            },
        }
        let parameters = match parse_function_parameters(parser) {
            Ok(ps) => ps,
            Err(e) => {
                return Err(e);
            },
        };
        let body = match Block::parse(parser) {
            Ok(b) => b,
            Err(e) => {
                return Err(e);
            },
        };
        Ok(Expression::FunctionLiteral(FunctionLiteral { token, parameters, body }))
    }
}

impl Block {
    /// Parses `{ statements }`.
    pub fn parse(parser: &mut Parser) -> (r: Result<Block, ParserError>)
        requires
            old(parser).wf(),
        ensures
            final(parser).wf(),
            block_matches(r, syntax::parse_block(old(parser).remaining()).0),
            final(parser).remaining() == syntax::parse_block(old(parser).remaining()).1,
            final(parser).remaining().len() <= old(parser).remaining().len(),
            r is Ok ==> final(parser).remaining().len() < old(parser).remaining().len(),
        decreases old(parser).remaining().len(), 0nat,
    {
        let ghost ts = parser.remaining();
        match parser.expect_token_with_kind(TokenKind::LBrace) {
            Ok(_) => {},
            Err(e) => {
                return Err(e);
            },
        }
        let mut statements: Vec<Statement> = Vec::new();
        loop
            invariant
                parser.wf(),
                ts == old(parser).remaining(),
                parser.remaining().len() < ts.len(),
                syntax::parse_block(ts) == syntax::parse_block_from(
                    parser.remaining(),
                    stmts_model(statements@),
                ),
            decreases parser.remaining().len(),
        {
            match parser.current_kind() {
                None => {
                    return Err(
                        ParserError::WrongTokenKind { expected: TokenKind::RBrace, actual: None },
                    );
                },
                Some(k) => {
                    if k == TokenKind::RBrace {
                        parser.advance();
                        return Ok(Block { statements });
                    }
                },
            }
            let ghost before = statements@;
            let s = match Statement::parse(parser) {
                Ok(s) => s,
                Err(e) => {
                    return Err(e);
                },
            };
            proof {
                lemma_stmts_model_push(before, s);
            }
            statements.push(s);
        }
    }
}

impl Statement {
    /// Parses a `let`, a `return` or an expression statement.
    pub fn parse(parser: &mut Parser) -> (r: Result<Statement, ParserError>)
        requires
            old(parser).wf(),
        ensures
            final(parser).wf(),
            stmt_matches(r, syntax::parse_statement(old(parser).remaining()).0),
            final(parser).remaining() == syntax::parse_statement(old(parser).remaining()).1,
            final(parser).remaining().len() <= old(parser).remaining().len(),
            r is Ok ==> final(parser).remaining().len() < old(parser).remaining().len(),
        decreases old(parser).remaining().len(), 7nat,
    {
        let kind = parser.current_kind();
        if kind == Some(TokenKind::Let) {
            match statement::Let::parse(parser) {
                Ok(s) => Ok(Statement::Let(s)),
                Err(e) => Err(e),
            }
        } else if kind == Some(TokenKind::Return) {
            match statement::Return::parse(parser) {
                Ok(s) => Ok(Statement::Return(s)),
                Err(e) => Err(e),
            }
        } else {
            match statement::Expression::parse(parser) {
                Ok(s) => Ok(Statement::Expression(s)),
                Err(e) => Err(e),
            }
        }
    }
}

/// Moves past an optional semicolon.
fn skip_semicolon(parser: &mut Parser)
    requires
        old(parser).wf(),
    ensures
        final(parser).wf(),
        final(parser).remaining() == syntax::skip_semicolon(old(parser).remaining()),
{
    if parser.current_kind() == Some(TokenKind::Semicolon) {
        parser.advance();
    }
}

impl statement::Let {
    /// Parses `let name = value` and an optional semicolon.
    pub fn parse(parser: &mut Parser) -> (r: Result<statement::Let, ParserError>)
        requires
            old(parser).wf(),
            first_kind(old(parser).remaining()) == Some(TokenKind::Let),
        ensures
            final(parser).wf(),
            stmt_matches(
                match r {
                    Ok(s) => Ok(Statement::Let(s)),
                    Err(e) => Err(e),
                },
                syntax::parse_statement(old(parser).remaining()).0,
            ),
            final(parser).remaining() == syntax::parse_statement(old(parser).remaining()).1,
            final(parser).remaining().len() < old(parser).remaining().len(),
        decreases old(parser).remaining().len(), 6nat,
    {
        parser.advance();
        let token = match parser.expect_token_with_kind(TokenKind::Identifier) {
            Ok(t) => t,
            Err(e) => {
                return Err(e);
            },
        };
        match parser.expect_token_with_kind(TokenKind::Assign) {
            Ok(_) => {},
            Err(e) => {
                return Err(e);
            },
        }
        let value = match Expression::parse(parser, Precedence::Lowest) {
            Ok(e) => e,
            Err(e) => {
                return Err(e);
            },
        };
        skip_semicolon(parser);
        Ok(statement::Let { name: Identifier { token }, value })
    }
}

impl statement::Return {
    /// Parses `return value` and an optional semicolon.
    pub fn parse(parser: &mut Parser) -> (r: Result<statement::Return, ParserError>)
        requires
            old(parser).wf(),
            first_kind(old(parser).remaining()) == Some(TokenKind::Return),
        ensures
            final(parser).wf(),
            stmt_matches(
                match r {
                    Ok(s) => Ok(Statement::Return(s)),
                    Err(e) => Err(e),
                },
                syntax::parse_statement(old(parser).remaining()).0,
            ),
            final(parser).remaining() == syntax::parse_statement(old(parser).remaining()).1,
            final(parser).remaining().len() < old(parser).remaining().len(),
        decreases old(parser).remaining().len(), 6nat,
    {
        parser.advance();
        let value = match Expression::parse(parser, Precedence::Lowest) {
            Ok(e) => e,
            Err(e) => {
                return Err(e);
            },
        };
        skip_semicolon(parser);
        Ok(statement::Return { value })
    }
}

impl statement::Expression {
    /// Parses an expression and an optional semicolon.
    pub fn parse(parser: &mut Parser) -> (r: Result<statement::Expression, ParserError>)
        requires
            old(parser).wf(),
            first_kind(old(parser).remaining()) != Some(TokenKind::Let),
            first_kind(old(parser).remaining()) != Some(TokenKind::Return),
        ensures
            final(parser).wf(),
            stmt_matches(
                match r {
                    Ok(s) => Ok(Statement::Expression(s)),
                    Err(e) => Err(e),
                },
                syntax::parse_statement(old(parser).remaining()).0,
            ),
            final(parser).remaining() == syntax::parse_statement(old(parser).remaining()).1,
            final(parser).remaining().len() <= old(parser).remaining().len(),
            r is Ok ==> final(parser).remaining().len() < old(parser).remaining().len(),
        decreases old(parser).remaining().len(), 6nat,
    {
        let expression = match Expression::parse(parser, Precedence::Lowest) {
            Ok(e) => e,
            Err(e) => {
                return Err(e);
            },
        };
        skip_semicolon(parser);
        Ok(statement::Expression { expression })
    }
}

/// How a token kind is written in messages.
pub open spec fn kind_text(k: TokenKind) -> Seq<char> {
    match k {
        TokenKind::Illegal => "ILLEGAL"@,
        TokenKind::Identifier => "IDENTIFIER"@,
        TokenKind::Integer => "INTEGER"@,
        TokenKind::Assign => "="@,
        TokenKind::Plus => "+"@,
        TokenKind::Minus => "-"@,
        TokenKind::Bang => "!"@,
        TokenKind::Asterisk => "*"@,
        TokenKind::Slash => "/"@,
        TokenKind::LessThan => "<"@,
        TokenKind::GreaterThan => ">"@,
        TokenKind::Equal => "=="@,
        TokenKind::NotEqual => "!="@,
        TokenKind::LessOrEqual => "<="@,
        TokenKind::GreaterOrEqual => ">="@,
        TokenKind::Comma => ","@,
        TokenKind::Semicolon => ";"@,
        TokenKind::LParenthesis => "("@,
        TokenKind::RParenthesis => ")"@,
        TokenKind::LBrace => "{"@,
        TokenKind::RBrace => "}"@,
        TokenKind::Function => "fn"@,
        TokenKind::Let => "let"@,
        TokenKind::True => "true"@,
        TokenKind::False => "false"@,
        TokenKind::If => "if"@,
        TokenKind::Else => "else"@,
        TokenKind::Return => "return"@,
    }
}

/// How a token kind, or the end of the input, is written in messages.
pub open spec fn found_text(k: Option<TokenKind>) -> Seq<char> {
    match k {
        Some(k) => kind_text(k),
        None => "end of input"@,
    }
}

/// The message reported for a parse error.
pub open spec fn error_message(e: ParserError) -> Seq<char> {
    match e {
        ParserError::WrongTokenKind { expected, actual } => "expected next token to be "@
            + kind_text(expected) + ", got "@ + found_text(actual),
        ParserError::MissingPrefixFn { actual } => "no prefix parse function for "@ + found_text(
            actual,
        ),
        ParserError::IntegerOutOfRange => "integer literal out of range"@,
    }
}

pub fn kind_name(k: TokenKind) -> (r: &'static str)
    ensures
        r@ == kind_text(k),
{
    match k {
        TokenKind::Illegal => "ILLEGAL",
        TokenKind::Identifier => "IDENTIFIER",
        TokenKind::Integer => "INTEGER",
        TokenKind::Assign => "=",
        TokenKind::Plus => "+",
        TokenKind::Minus => "-",
        TokenKind::Bang => "!",
        TokenKind::Asterisk => "*",
        TokenKind::Slash => "/",
        TokenKind::LessThan => "<",
        TokenKind::GreaterThan => ">",
        TokenKind::Equal => "==",
        TokenKind::NotEqual => "!=",
        TokenKind::LessOrEqual => "<=",
        TokenKind::GreaterOrEqual => ">=",
        TokenKind::Comma => ",",
        TokenKind::Semicolon => ";",
        TokenKind::LParenthesis => "(",
        TokenKind::RParenthesis => ")",
        TokenKind::LBrace => "{",
        TokenKind::RBrace => "}",
        TokenKind::Function => "fn",
        TokenKind::Let => "let",
        TokenKind::True => "true",
        TokenKind::False => "false",
        TokenKind::If => "if",
        TokenKind::Else => "else",
        TokenKind::Return => "return",
    }
}

fn found_name(k: Option<TokenKind>) -> (r: &'static str)
    ensures
        r@ == found_text(k),
{
    match k {
        Some(k) => kind_name(k),
        None => "end of input",
    }
}

impl ParserError {
    /// The message that describes this error.
    pub fn message(&self) -> (r: String)
        ensures
            r@ == error_message(*self),
    {
        match self {
            ParserError::WrongTokenKind { expected, actual } => {
                let mut m = String::from_str("expected next token to be ");
                m.append(kind_name(*expected));
                m.append(", got ");
                m.append(found_name(*actual));
                m
            },
            ParserError::MissingPrefixFn { actual } => {
                let mut m = String::from_str("no prefix parse function for ");
                m.append(found_name(*actual));
                m
            },
            ParserError::IntegerOutOfRange => String::from_str("integer literal out of range"),
        }
    }
}

/// Skips to the next statement boundary: past the next semicolon, or to the end.
fn skip_to_statement_end(parser: &mut Parser)
    requires
        old(parser).wf(),
    ensures
        final(parser).wf(),
        final(parser).remaining() == syntax::recover(old(parser).remaining()),
{
    loop
        invariant
            parser.wf(),
            syntax::recover(old(parser).remaining()) == syntax::recover(parser.remaining()),
        decreases parser.remaining().len(),
    {
        match parser.current_kind() {
            None => {
                return;
            },
            Some(k) => {
                parser.advance();
                if k == TokenKind::Semicolon {
                    return;
                }
            },
        }
    }
}

proof fn lemma_recover_shrinks(ts: Seq<Tok>)
    ensures
        syntax::recover(ts).len() <= ts.len(),
        ts.len() > 0 ==> syntax::recover(ts).len() < ts.len(),
    decreases ts.len(),
{
    if ts.len() > 0 && ts[0].0 != TokenKind::Semicolon {
        lemma_recover_shrinks(ts.drop_first());
    }
}

/// The messages of a list of parse errors.
pub open spec fn error_messages(es: Seq<ParserError>) -> Seq<Seq<char>> {
    es.map_values(|e: ParserError| error_message(e))
}

impl Program {
    /// Parses statements until the tokens run out. A statement that fails to parse
    /// leaves its message in `errors`, and parsing goes on after the next statement
    /// boundary.
    pub fn parse(parser: &mut Parser) -> (r: Result<Program, ParserError>)
        requires
            old(parser).wf(),
        ensures
            final(parser).wf(),
            final(parser).remaining().len() == 0,
            match r {
                Ok(p) => {
                    &&& p.model() == syntax::parse_program(old(parser).remaining()).0
                    &&& texts(p.errors@) == error_messages(
                        syntax::parse_program(old(parser).remaining()).1,
                    )
                },
                Err(_) => false,
            },
    {
        let ghost ts = parser.remaining();
        let mut program = Program::new();
        let ghost mut errs: Seq<ParserError> = seq![];
        assert(stmts_model(program.statements@) =~= seq![]);
        assert(texts(program.errors@) =~= error_messages(errs));
        loop
            invariant
                parser.wf(),
                ts == old(parser).remaining(),
                syntax::parse_program(ts) == syntax::parse_program_from(
                    parser.remaining(),
                    stmts_model(program.statements@),
                    errs,
                ),
                texts(program.errors@) == error_messages(errs),
            decreases parser.remaining().len(),
        {
            if parser.current_kind().is_none() {
                return Ok(program);
            }
            let ghost before = parser.remaining();
            match Statement::parse(parser) {
                Ok(s) => {
                    proof {
                        lemma_stmts_model_push(program.statements@, s);
                    }
                    program.statements.push(s);
                },
                Err(e) => {
                    let ghost old_errors = program.errors@;
                    program.errors.push(e.message());
                    proof {
                        lemma_recover_shrinks(parser.remaining());
                        errs = errs.push(e);
                        assert(texts(program.errors@) =~= texts(old_errors).push(
                            error_message(e),
                        ));
                        assert(error_messages(errs) =~= error_messages(errs.drop_last()).push(
                            error_message(e),
                        ));
                    }
                    skip_to_statement_end(parser);
                },
            }
        }
    }
}

} // verus!
