use vstd::prelude::*;

verus! {

/// The kind of a lexical token.
#[derive(Debug, Clone, Copy, PartialEq, Eq, Structural, Hash)]
pub enum TokenKind {
    /// A character that starts no token of the language.
    Illegal,
    Identifier,
    Integer,
    Assign,
    Plus,
    Minus,
    Bang,
    Asterisk,
    Slash,
    LessThan,
    GreaterThan,
    Equal,
    NotEqual,
    LessOrEqual,
    GreaterOrEqual,
    Comma,
    Semicolon,
    LParenthesis,
    RParenthesis,
    LBrace,
    RBrace,
    Function,
    Let,
    True,
    False,
    If,
    Else,
    Return,
}

/// A token: its kind and the text it was read from.
#[derive(Debug, Clone, PartialEq, Eq)]
pub struct Token {
    pub kind: TokenKind,
    pub literal: String,
}

impl View for Token {
    type V = (TokenKind, Seq<char>);

    open spec fn view(&self) -> (TokenKind, Seq<char>) {
        (self.kind, self.literal@)
    }
}

/// The kind of a reserved word, if `w` is one.
pub open spec fn keyword_kind(w: Seq<char>) -> Option<TokenKind> {
    if w == seq!['f', 'n'] {
        Some(TokenKind::Function)
    } else if w == seq!['l', 'e', 't'] {
        Some(TokenKind::Let)
    } else if w == seq!['t', 'r', 'u', 'e'] {
        Some(TokenKind::True)
    } else if w == seq!['f', 'a', 'l', 's', 'e'] {
        Some(TokenKind::False)
    } else if w == seq!['i', 'f'] {
        Some(TokenKind::If)
    } else if w == seq!['e', 'l', 's', 'e'] {
        Some(TokenKind::Else)
    } else if w == seq!['r', 'e', 't', 'u', 'r', 'n'] {
        Some(TokenKind::Return)
    } else {
        None
    }
}

/// The kind of a word made of identifier characters: a keyword or an identifier.
pub open spec fn word_kind(w: Seq<char>) -> TokenKind {
    match keyword_kind(w) {
        Some(k) => k,
        None => TokenKind::Identifier,
    }
}

/// The kind of a token of one character.
pub open spec fn single_char_kind(c: char) -> TokenKind {
    if c == '=' {
        TokenKind::Assign
    } else if c == '+' {
        TokenKind::Plus
    } else if c == '-' {
        TokenKind::Minus
    } else if c == '!' {
        TokenKind::Bang
    } else if c == '*' {
        TokenKind::Asterisk
    } else if c == '/' {
        TokenKind::Slash
    } else if c == '<' {
        TokenKind::LessThan
    } else if c == '>' {
        TokenKind::GreaterThan
    } else if c == ',' {
        TokenKind::Comma
    } else if c == ';' {
        TokenKind::Semicolon
    } else if c == '(' {
        TokenKind::LParenthesis
    } else if c == ')' {
        TokenKind::RParenthesis
    } else if c == '{' {
        TokenKind::LBrace
    } else if c == '}' {
        TokenKind::RBrace
    } else {
        TokenKind::Illegal
    }
}

/// Whether `c` starts a two-character operator when followed by `=`.
pub open spec fn is_comparison_start(c: char) -> bool {
    c == '=' || c == '!' || c == '<' || c == '>'
}

/// The kind of the two-character operator made of `c` and `=`.
pub open spec fn two_char_kind(c: char) -> TokenKind {
    if c == '=' {
        TokenKind::Equal
    } else if c == '!' {
        TokenKind::NotEqual
    } else if c == '<' {
        TokenKind::LessOrEqual
    } else {
        TokenKind::GreaterOrEqual
    }
}

impl Token {
    pub fn new(kind: TokenKind, literal: String) -> (r: Token)
        ensures
            r.kind == kind,
            r.literal@ == literal@,
    {
        Token { kind, literal }
    }

    pub fn kind(&self) -> (r: TokenKind)
        ensures
            r == self.kind,
    {
        self.kind
    }

    /// A copy of this token.
    pub fn duplicate(&self) -> (r: Token)
        ensures
            r == *self,
    {
        Token { kind: self.kind, literal: self.literal.clone() }
    }

    pub fn literal(&self) -> (r: &str)
        ensures
            r@ == self.literal@,
    {
        self.literal.as_str()
    }
}

/// The kind of the word `w[start..end]`.
pub fn classify_word(w: &Vec<char>, start: usize, end: usize) -> (r: TokenKind)
    requires
        start <= end <= w@.len(),
    ensures
        r == word_kind(w@.subrange(start as int, end as int)),
{
    let ghost s = w@.subrange(start as int, end as int);
    let n = end - start;
    assert(s.len() == n && forall|i: int| 0 <= i < n ==> s[i] == w@[start + i]);
    let r = if n == 2 && w[start] == 'f' && w[start + 1] == 'n' {
        TokenKind::Function
    } else if n == 3 && w[start] == 'l' && w[start + 1] == 'e' && w[start + 2] == 't' {
        TokenKind::Let
    } else if n == 4 && w[start] == 't' && w[start + 1] == 'r' && w[start + 2] == 'u' && w[start
        + 3] == 'e' {
        TokenKind::True
    } else if n == 5 && w[start] == 'f' && w[start + 1] == 'a' && w[start + 2] == 'l' && w[start
        + 3] == 's' && w[start + 4] == 'e' {
        TokenKind::False
    } else if n == 2 && w[start] == 'i' && w[start + 1] == 'f' {
        TokenKind::If
    } else if n == 4 && w[start] == 'e' && w[start + 1] == 'l' && w[start + 2] == 's' && w[start
        + 3] == 'e' {
        TokenKind::Else
    } else if n == 6 && w[start] == 'r' && w[start + 1] == 'e' && w[start + 2] == 't' && w[start
        + 3] == 'u' && w[start + 4] == 'r' && w[start + 5] == 'n' {
        TokenKind::Return
    } else {
        TokenKind::Identifier
    };
    proof {
        if n == 2 && s[0] == 'f' && s[1] == 'n' {
            assert(s =~= seq!['f', 'n']);
        } else if n == 3 && s[0] == 'l' && s[1] == 'e' && s[2] == 't' {
            assert(s =~= seq!['l', 'e', 't']);
        } else if n == 4 && s[0] == 't' && s[1] == 'r' && s[2] == 'u' && s[3] == 'e' {
            assert(s =~= seq!['t', 'r', 'u', 'e']);
        } else if n == 5 && s[0] == 'f' && s[1] == 'a' && s[2] == 'l' && s[3] == 's' && s[4]
            == 'e' {
            assert(s =~= seq!['f', 'a', 'l', 's', 'e']);
        } else if n == 2 && s[0] == 'i' && s[1] == 'f' {
            assert(s =~= seq!['i', 'f']);
        } else if n == 4 && s[0] == 'e' && s[1] == 'l' && s[2] == 's' && s[3] == 'e' {
            assert(s =~= seq!['e', 'l', 's', 'e']);
        } else if n == 6 && s[0] == 'r' && s[1] == 'e' && s[2] == 't' && s[3] == 'u' && s[4]
            == 'r' && s[5] == 'n' {
            assert(s =~= seq!['r', 'e', 't', 'u', 'r', 'n']);
        } else {
            assert(keyword_kind(s) is None) by {
                if s == seq!['f', 'n'] {
                    assert(s[0] == 'f' && s[1] == 'n');
                }
                if s == seq!['l', 'e', 't'] {
                    assert(s[0] == 'l' && s[1] == 'e' && s[2] == 't');
                }
                if s == seq!['t', 'r', 'u', 'e'] {
                    assert(s[0] == 't' && s[1] == 'r' && s[2] == 'u' && s[3] == 'e');
                }
                if s == seq!['f', 'a', 'l', 's', 'e'] {
                    assert(s[0] == 'f' && s[1] == 'a' && s[2] == 'l' && s[3] == 's' && s[4]
                        == 'e');
                }
                if s == seq!['i', 'f'] {
                    assert(s[0] == 'i' && s[1] == 'f');
                }
                if s == seq!['e', 'l', 's', 'e'] {
                    assert(s[0] == 'e' && s[1] == 'l' && s[2] == 's' && s[3] == 'e');
                }
                if s == seq!['r', 'e', 't', 'u', 'r', 'n'] {
                    assert(s[0] == 'r' && s[1] == 'e' && s[2] == 't' && s[3] == 'u' && s[4]
                        == 'r' && s[5] == 'n');
                }
            }
        }
    }
    r
}

/// The kind of the token made of the single character `c`.
pub fn classify_char(c: char) -> (r: TokenKind)
    ensures
        r == single_char_kind(c),
{
    if c == '=' {
        TokenKind::Assign
    } else if c == '+' {
        TokenKind::Plus
    } else if c == '-' {
        TokenKind::Minus
    } else if c == '!' {
        TokenKind::Bang
    } else if c == '*' {
        TokenKind::Asterisk
    } else if c == '/' {
        TokenKind::Slash
    } else if c == '<' {
        TokenKind::LessThan
    } else if c == '>' {
        TokenKind::GreaterThan
    } else if c == ',' {
        TokenKind::Comma
    } else if c == ';' {
        TokenKind::Semicolon
    } else if c == '(' {
        TokenKind::LParenthesis
    } else if c == ')' {
        TokenKind::RParenthesis
    } else if c == '{' {
        TokenKind::LBrace
    } else if c == '}' {
        TokenKind::RBrace
    } else {
        TokenKind::Illegal
    }
}

/// The kind of the two-character operator made of `c` and `=`.
pub fn classify_comparison(c: char) -> (r: TokenKind)
    requires
        is_comparison_start(c),
    ensures
        r == two_char_kind(c),
{
    if c == '=' {
        TokenKind::Equal
    } else if c == '!' {
        TokenKind::NotEqual
    } else if c == '<' {
        TokenKind::LessOrEqual
    } else {
        TokenKind::GreaterOrEqual
    }
}

} // verus!
