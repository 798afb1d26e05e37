use vstd::prelude::*;

use crate::token::{
    classify_char, classify_comparison, classify_word, is_comparison_start, single_char_kind,
    two_char_kind, word_kind, Token, TokenKind,
};

verus! {

/// ASCII whitespace, which separates tokens and is otherwise skipped.
pub open spec fn is_whitespace(c: char) -> bool {
    c == ' ' || c == '\t' || c == '\n' || c == '\r' || c == '\u{000C}'
}

/// A character that may start an identifier or a keyword.
pub open spec fn is_letter(c: char) -> bool {
    ('a' <= c && c <= 'z') || ('A' <= c && c <= 'Z') || c == '_'
}

pub open spec fn is_digit(c: char) -> bool {
    '0' <= c && c <= '9'
}

/// A character that may continue an identifier or a keyword.
pub open spec fn is_word_char(c: char) -> bool {
    is_letter(c) || is_digit(c)
}

/// The first position at or after `i` that holds no whitespace.
pub open spec fn skip_whitespace(s: Seq<char>, i: int) -> int
    decreases s.len() - i,
{
    if 0 <= i < s.len() && is_whitespace(s[i]) {
        skip_whitespace(s, i + 1)
    } else {
        i
    }
}

/// The end of the run of word characters that starts at `i`.
pub open spec fn word_end(s: Seq<char>, i: int) -> int
    decreases s.len() - i,
{
    if 0 <= i < s.len() && is_word_char(s[i]) {
        word_end(s, i + 1)
    } else {
        i
    }
}

/// The end of the run of digits that starts at `i`.
pub open spec fn digits_end(s: Seq<char>, i: int) -> int
    decreases s.len() - i,
{
    if 0 <= i < s.len() && is_digit(s[i]) {
        digits_end(s, i + 1)
    } else {
        i
    }
}

/// The kind and the end of the token that starts at `i`, a position that holds no whitespace.
pub open spec fn token_at(s: Seq<char>, i: int) -> (TokenKind, int) {
    let c = s[i];
    if is_letter(c) {
        let e = word_end(s, i + 1);
        (word_kind(s.subrange(i, e)), e)
    } else if is_digit(c) {
        (TokenKind::Integer, digits_end(s, i + 1))
    } else if is_comparison_start(c) && i + 1 < s.len() && s[i + 1] == '=' {
        (two_char_kind(c), i + 2)
    } else {
        (single_char_kind(c), i + 1)
    }
}

pub proof fn lemma_skip_whitespace_bounds(s: Seq<char>, i: int)
    requires
        0 <= i <= s.len(),
    ensures
        i <= skip_whitespace(s, i) <= s.len(),
        forall|k: int| i <= k < skip_whitespace(s, i) ==> is_whitespace(#[trigger] s[k]),
        skip_whitespace(s, i) < s.len() ==> !is_whitespace(s[skip_whitespace(s, i)]),
    decreases s.len() - i,
{
    if i < s.len() && is_whitespace(s[i]) {
        lemma_skip_whitespace_bounds(s, i + 1);
    }
}

pub proof fn lemma_word_end_bounds(s: Seq<char>, i: int)
    requires
        0 <= i <= s.len(),
    ensures
        i <= word_end(s, i) <= s.len(),
        forall|k: int| i <= k < word_end(s, i) ==> is_word_char(#[trigger] s[k]),
        word_end(s, i) < s.len() ==> !is_word_char(s[word_end(s, i)]),
    decreases s.len() - i,
{
    if i < s.len() && is_word_char(s[i]) {
        lemma_word_end_bounds(s, i + 1);
    }
}

pub proof fn lemma_digits_end_bounds(s: Seq<char>, i: int)
    requires
        0 <= i <= s.len(),
    ensures
        i <= digits_end(s, i) <= s.len(),
        forall|k: int| i <= k < digits_end(s, i) ==> is_digit(#[trigger] s[k]),
        digits_end(s, i) < s.len() ==> !is_digit(s[digits_end(s, i)]),
    decreases s.len() - i,
{
    if i < s.len() && is_digit(s[i]) {
        lemma_digits_end_bounds(s, i + 1);
    }
}

pub proof fn lemma_token_at_bounds(s: Seq<char>, i: int)
    requires
        0 <= i < s.len(),
    ensures
        i < token_at(s, i).1 <= s.len(),
{
    lemma_word_end_bounds(s, i + 1);
    lemma_digits_end_bounds(s, i + 1);
}

/// The tokens of `s` from position `i` on: each token as its kind and its text.
pub open spec fn tokenize_from(s: Seq<char>, i: int) -> Seq<(TokenKind, Seq<char>)>
    decreases s.len() - i,
{
    if 0 <= i <= s.len() {
        let j = skip_whitespace(s, i);
        if j >= s.len() {
            seq![]
        } else {
            let (kind, e) = token_at(s, j);
            proof {
                lemma_skip_whitespace_bounds(s, i);
                lemma_token_at_bounds(s, j);
            }
            seq![(kind, s.subrange(j, e))] + tokenize_from(s, e)
        }
    } else {
        seq![]
    }
}

/// The tokens of the source text `s`.
pub open spec fn tokenize(s: Seq<char>) -> Seq<(TokenKind, Seq<char>)> {
    tokenize_from(s, 0)
}

/// The views of a sequence of tokens.
pub open spec fn token_views(ts: Seq<Token>) -> Seq<(TokenKind, Seq<char>)> {
    ts.map_values(|t: Token| t@)
}

/// Source text to be split into tokens.
#[derive(Debug, Clone)]
pub struct Lexer {
    input: String,
}

impl Lexer {
    pub fn new(input: &str) -> (r: Lexer)
        ensures
            r.input() == input@,
    {
        Lexer { input: input.to_owned() }
    }

    pub closed spec fn input(&self) -> Seq<char> {
        self.input@
    }

    /// A stream that hands out the tokens of the input one at a time.
    pub fn tokens(&self) -> (r: Tokens)
        ensures
            r.wf(),
            r.remaining() == tokenize(self.input()),
    {
        Tokens::new(&self.input)
    }

    /// All tokens of the input, in order.
    pub fn iter(&self) -> (r: Vec<Token>)
        ensures
            token_views(r@) == tokenize(self.input()),
    {
        let mut stream = self.tokens();
        let mut out: Vec<Token> = Vec::new();
        loop
            invariant
                stream.wf(),
                token_views(out@) + stream.remaining() == tokenize(self.input()),
            decreases stream.measure(),
        {
            match stream.next() {
                None => {
                    assert(token_views(out@) =~= tokenize(self.input()));
                    return out;
                },
                Some(t) => {
                    let ghost before = out@;
                    out.push(t);
                    assert(token_views(out@) =~= token_views(before).push(t@));
                },
            }
        }
    }
}

/// A stream of tokens read lazily from source text.
#[derive(Debug, Clone)]
pub struct Tokens {
    input: String,
    chars: Vec<char>,
    position: usize,
}

/// The characters of `s` as a vector.
fn chars_of(s: &str) -> (r: Vec<char>)
    ensures
        r@ == s@,
{
    let n = s.unicode_len();
    let mut out: Vec<char> = Vec::new();
    let mut i: usize = 0;
    while i < n
        invariant
            n == s@.len(),
            i <= n,
            out@ == s@.subrange(0, i as int),
        decreases n - i,
    {
        out.push(s.get_char(i));
        i = i + 1;
        assert(out@ =~= s@.subrange(0, i as int));
    }
    assert(out@ =~= s@);
    out
}

impl Tokens {
    pub closed spec fn wf(&self) -> bool {
        &&& self.chars@ == self.input@
        &&& self.position <= self.chars@.len()
    }

    /// The tokens this stream has yet to hand out.
    pub closed spec fn remaining(&self) -> Seq<(TokenKind, Seq<char>)> {
        tokenize_from(self.chars@, self.position as int)
    }

    /// A bound on the number of tokens left.
    pub closed spec fn measure(&self) -> int {
        self.chars@.len() - self.position
    }

    pub fn new(input: &String) -> (r: Tokens)
        ensures
            r.wf(),
            r.remaining() == tokenize(input@),
    {
        let chars = chars_of(input.as_str());
        Tokens { input: input.clone(), chars, position: 0 }
    }

    /// Hands out the next token, or `None` once the input is exhausted.
    pub fn next(&mut self) -> (r: Option<Token>)
        requires
            old(self).wf(),
        ensures
            final(self).wf(),
            match r {
                None => {
                    &&& old(self).remaining() == Seq::<(TokenKind, Seq<char>)>::empty()
                    &&& final(self).remaining() == Seq::<(TokenKind, Seq<char>)>::empty()
                },
                Some(t) => {
                    &&& old(self).remaining() == seq![t@] + final(self).remaining()
                    &&& final(self).measure() < old(self).measure()
                },
            },
    {
        let ghost s = self.chars@;
        let n = self.chars.len();
        let mut i = self.position;
        proof {
            lemma_skip_whitespace_bounds(s, i as int);
        }
        while i < n && is_ascii_whitespace(self.chars[i])
            invariant
                n == s.len(),
                s == self.chars@,
                self.position <= i <= n,
                skip_whitespace(s, self.position as int) == skip_whitespace(s, i as int),
            decreases n - i,
        {
            i = i + 1;
        }
        if i >= n {
            self.position = i;
            return None;
        }
        let start = i;
        let c = self.chars[i];
        proof {
            lemma_token_at_bounds(s, start as int);
        }
        let kind;
        if is_ascii_letter(c) {
            i = i + 1;
            while i < n && (is_ascii_letter(self.chars[i]) || is_ascii_digit(self.chars[i]))
                invariant
                    n == s.len(),
                    s == self.chars@,
                    start < i <= n,
                    word_end(s, start + 1) == word_end(s, i as int),
                decreases n - i,
            {
                i = i + 1;
            }
            kind = classify_word(&self.chars, start, i);
        } else if is_ascii_digit(c) {
            i = i + 1;
            while i < n && is_ascii_digit(self.chars[i])
                invariant
                    n == s.len(),
                    s == self.chars@,
                    start < i <= n,
                    digits_end(s, start + 1) == digits_end(s, i as int),
                decreases n - i,
            {
                i = i + 1;
            }
            kind = TokenKind::Integer;
        } else if (c == '=' || c == '!' || c == '<' || c == '>') && i + 1 < n && self.chars[i + 1]
            == '=' {
            kind = classify_comparison(c);
            i = i + 2;
        } else {
            kind = classify_char(c);
            i = i + 1;
        }
        assert(token_at(s, start as int) == (kind, i as int));
        let literal = self.input.as_str().substring_char(start, i).to_owned();
        self.position = i;
        let t = Token { kind, literal };
        assert(tokenize_from(s, old(self).position as int) == seq![t@] + tokenize_from(s, i as int));
        Some(t)
    }
}

fn is_ascii_whitespace(c: char) -> (r: bool)
    ensures
        r == is_whitespace(c),
{
    c == ' ' || c == '\t' || c == '\n' || c == '\r' || c == '\u{000C}'
}

fn is_ascii_letter(c: char) -> (r: bool)
    ensures
        r == is_letter(c),
{
    ('a' <= c && c <= 'z') || ('A' <= c && c <= 'Z') || c == '_'
}

fn is_ascii_digit(c: char) -> (r: bool)
    ensures
        r == is_digit(c),
{
    '0' <= c && c <= '9'
}

} // verus!
