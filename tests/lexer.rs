use monkey::lexer::Lexer;
use monkey::token::{Token, TokenKind};

#[test]
fn test_next() {
    let input = r#"
            let five = 5;
            let ten = 10;

            let add = fn(x, y) {
                x + y
            };

            let result = add(five, ten);
            !-/*5;
            5 < 10 > 5;

            if (5 < 10) {
                return true;
            } else {
                return false;
            }

            10 == 10;
            10 != 9;
        "#;

    let expected_tokens = &[
        Token {
            kind: TokenKind::Let,
            literal: "let".to_string(),
        },
        Token {
            kind: TokenKind::Identifier,
            literal: "five".to_string(),
        },
        Token {
            kind: TokenKind::Assign,
            literal: "=".to_string(),
        },
        Token {
            kind: TokenKind::Integer,
            literal: "5".to_string(),
        },
        Token {
            kind: TokenKind::Semicolon,
            literal: ";".to_string(),
        },
        Token {
            kind: TokenKind::Let,
            literal: "let".to_string(),
        },
        Token {
            kind: TokenKind::Identifier,
            literal: "ten".to_string(),
        },
        Token {
            kind: TokenKind::Assign,
            literal: "=".to_string(),
        },
        Token {
            kind: TokenKind::Integer,
            literal: "10".to_string(),
        },
        Token {
            kind: TokenKind::Semicolon,
            literal: ";".to_string(),
        },
        Token {
            kind: TokenKind::Let,
            literal: "let".to_string(),
        },
        Token {
            kind: TokenKind::Identifier,
            literal: "add".to_string(),
        },
        Token {
            kind: TokenKind::Assign,
            literal: "=".to_string(),
        },
        Token {
            kind: TokenKind::Function,
            literal: "fn".to_string(),
        },
        Token {
            kind: TokenKind::LParenthesis,
            literal: "(".to_string(),
        },
        Token {
            kind: TokenKind::Identifier,
            literal: "x".to_string(),
        },
        Token {
            kind: TokenKind::Comma,
            literal: ",".to_string(),
        },
        Token {
            kind: TokenKind::Identifier,
            literal: "y".to_string(),
        },
        Token {
            kind: TokenKind::RParenthesis,
            literal: ")".to_string(),
        },
        Token {
            kind: TokenKind::LBrace,
            literal: "{".to_string(),
        },
        Token {
            kind: TokenKind::Identifier,
            literal: "x".to_string(),
        },
        Token {
            kind: TokenKind::Plus,
            literal: "+".to_string(),
        },
        Token {
            kind: TokenKind::Identifier,
            literal: "y".to_string(),
        },
        Token {
            kind: TokenKind::RBrace,
            literal: "}".to_string(),
        },
        Token {
            kind: TokenKind::Semicolon,
            literal: ";".to_string(),
        },
        Token {
            kind: TokenKind::Let,
            literal: "let".to_string(),
        },
        Token {
            kind: TokenKind::Identifier,
            literal: "result".to_string(),
        },
        Token {
            kind: TokenKind::Assign,
            literal: "=".to_string(),
        },
        Token {
            kind: TokenKind::Identifier,
            literal: "add".to_string(),
        },
        Token {
            kind: TokenKind::LParenthesis,
            literal: "(".to_string(),
        },
        Token {
            kind: TokenKind::Identifier,
            literal: "five".to_string(),
        },
        Token {
            kind: TokenKind::Comma,
            literal: ",".to_string(),
        },
        Token {
            kind: TokenKind::Identifier,
            literal: "ten".to_string(),
        },
        Token {
            kind: TokenKind::RParenthesis,
            literal: ")".to_string(),
        },
        Token {
            kind: TokenKind::Semicolon,
            literal: ";".to_string(),
        },
        Token {
            kind: TokenKind::Bang,
            literal: "!".to_string(),
        },
        Token {
            kind: TokenKind::Minus,
            literal: "-".to_string(),
        },
        Token {
            kind: TokenKind::Slash,
            literal: "/".to_string(),
        },
        Token {
            kind: TokenKind::Asterisk,
            literal: "*".to_string(),
        },
        Token {
            kind: TokenKind::Integer,
            literal: "5".to_string(),
        },
        Token {
            kind: TokenKind::Semicolon,
            literal: ";".to_string(),
        },
        Token {
            kind: TokenKind::Integer,
            literal: "5".to_string(),
        },
        Token {
            kind: TokenKind::LessThan,
            literal: "<".to_string(),
        },
        Token {
            kind: TokenKind::Integer,
            literal: "10".to_string(),
        },
        Token {
            kind: TokenKind::GreaterThan,
            literal: ">".to_string(),
        },
        Token {
            kind: TokenKind::Integer,
            literal: "5".to_string(),
        },
        Token {
            kind: TokenKind::Semicolon,
            literal: ";".to_string(),
        },
        Token {
            kind: TokenKind::If,
            literal: "if".to_string(),
        },
        Token {
            kind: TokenKind::LParenthesis,
            literal: "(".to_string(),
        },
        Token {
            kind: TokenKind::Integer,
            literal: "5".to_string(),
        },
        Token {
            kind: TokenKind::LessThan,
            literal: "<".to_string(),
        },
        Token {
            kind: TokenKind::Integer,
            literal: "10".to_string(),
        },
        Token {
            kind: TokenKind::RParenthesis,
            literal: ")".to_string(),
        },
        Token {
            kind: TokenKind::LBrace,
            literal: "{".to_string(),
        },
        Token {
            kind: TokenKind::Return,
            literal: "return".to_string(),
        },
        Token {
            kind: TokenKind::True,
            literal: "true".to_string(),
        },
        Token {
            kind: TokenKind::Semicolon,
            literal: ";".to_string(),
        },
        Token {
            kind: TokenKind::RBrace,
            literal: "}".to_string(),
        },
        Token {
            kind: TokenKind::Else,
            literal: "else".to_string(),
        },
        Token {
            kind: TokenKind::LBrace,
            literal: "{".to_string(),
        },
        Token {
            kind: TokenKind::Return,
            literal: "return".to_string(),
        },
        Token {
            kind: TokenKind::False,
            literal: "false".to_string(),
        },
        Token {
            kind: TokenKind::Semicolon,
            literal: ";".to_string(),
        },
        Token {
            kind: TokenKind::RBrace,
            literal: "}".to_string(),
        },
        Token {
            kind: TokenKind::Integer,
            literal: "10".to_string(),
        },
        Token {
            kind: TokenKind::Equal,
            literal: "==".to_string(),
        },
        Token {
            kind: TokenKind::Integer,
            literal: "10".to_string(),
        },
        Token {
            kind: TokenKind::Semicolon,
            literal: ";".to_string(),
        },
        Token {
            kind: TokenKind::Integer,
            literal: "10".to_string(),
        },
        Token {
            kind: TokenKind::NotEqual,
            literal: "!=".to_string(),
        },
        Token {
            kind: TokenKind::Integer,
            literal: "9".to_string(),
        },
        Token {
            kind: TokenKind::Semicolon,
            literal: ";".to_string(),
        },
    ];

    let lexer = Lexer::new(&input);
    let mut expected_tokens_it = expected_tokens.iter();

    for token in lexer.iter() {
        let expected_token = expected_tokens_it
            .next()
            .expect("expected test to cover all of the test input");

        assert_eq!(token, *expected_token);
    }
}
