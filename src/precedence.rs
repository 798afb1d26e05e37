use vstd::prelude::*;

use crate::token::TokenKind;

verus! {

/// Binding strength of operators, from weakest to strongest.
#[derive(Debug, Clone, Copy, PartialEq, Eq, Structural)]
pub enum Precedence {
    Lowest,
    Equals,
    LessGreater,
    Sum,
    Product,
    Prefix,
    Call,
}

impl Precedence {
    /// The place of this level in the order, `Lowest` first.
    pub open spec fn rank(self) -> nat {
        match self {
            Precedence::Lowest => 0,
            Precedence::Equals => 1,
            Precedence::LessGreater => 2,
            Precedence::Sum => 3,
            Precedence::Product => 4,
            Precedence::Prefix => 5,
            Precedence::Call => 6,
        }
    }

    pub fn level(&self) -> (r: u8)
        ensures
            r as nat == self.rank(),
    {
        match self {
            Precedence::Lowest => 0,
            Precedence::Equals => 1,
            Precedence::LessGreater => 2,
            Precedence::Sum => 3,
            Precedence::Product => 4,
            Precedence::Prefix => 5,
            Precedence::Call => 6,
        }
    }

    /// Whether `self` binds strictly tighter than `other`.
    pub fn binds_tighter(&self, other: &Precedence) -> (r: bool)
        ensures
            r == (self.rank() > other.rank()),
    {
        self.level() > other.level()
    }
}

/// The precedence of a token in infix position; `Lowest` for tokens that are no operator.
pub open spec fn precedence_of(k: TokenKind) -> Precedence {
    match k {
        TokenKind::Equal | TokenKind::NotEqual => Precedence::Equals,
        TokenKind::LessThan | TokenKind::GreaterThan | TokenKind::LessOrEqual
        | TokenKind::GreaterOrEqual => Precedence::LessGreater,
        TokenKind::Plus | TokenKind::Minus => Precedence::Sum,
        TokenKind::Slash | TokenKind::Asterisk => Precedence::Product,
        TokenKind::LParenthesis => Precedence::Call,
        _ => Precedence::Lowest,
    }
}

/// Whether a binary operator is written with this token.
pub open spec fn is_binary_operator(k: TokenKind) -> bool {
    match k {
        TokenKind::Plus | TokenKind::Minus | TokenKind::Asterisk | TokenKind::Slash
        | TokenKind::LessThan | TokenKind::GreaterThan | TokenKind::LessOrEqual
        | TokenKind::GreaterOrEqual | TokenKind::Equal | TokenKind::NotEqual => true,
        _ => false,
    }
}

/// Whether the token has a handler in infix position: a binary operator or a call.
pub open spec fn has_infix(k: TokenKind) -> bool {
    is_binary_operator(k) || k == TokenKind::LParenthesis
}

pub fn token_precedence(k: TokenKind) -> (r: Precedence)
    ensures
        r == precedence_of(k),
{
    match k {
        TokenKind::Equal | TokenKind::NotEqual => Precedence::Equals,
        TokenKind::LessThan | TokenKind::GreaterThan | TokenKind::LessOrEqual
        | TokenKind::GreaterOrEqual => Precedence::LessGreater,
        TokenKind::Plus | TokenKind::Minus => Precedence::Sum,
        TokenKind::Slash | TokenKind::Asterisk => Precedence::Product,
        TokenKind::LParenthesis => Precedence::Call,
        _ => Precedence::Lowest,
    }
}

pub fn infix_handler_exists(k: TokenKind) -> (r: bool)
    ensures
        r == has_infix(k),
{
    match k {
        TokenKind::Plus | TokenKind::Minus | TokenKind::Asterisk | TokenKind::Slash
        | TokenKind::LessThan | TokenKind::GreaterThan | TokenKind::LessOrEqual
        | TokenKind::GreaterOrEqual | TokenKind::Equal | TokenKind::NotEqual
        | TokenKind::LParenthesis => true,
        _ => false,
    }
}

} // verus!
