use monkey::ast::Node;
use monkey::environment::Environment;
use monkey::lexer::Lexer;
use monkey::object::{Integer, Object};
use monkey::parser::{Parser, ParserError};
use monkey::program::Program;
use monkey::text::int_to_string;
use monkey::token::TokenKind;

fn parse(input: &str) -> Program {
    let lexer = Lexer::new(input);
    let mut parser = Parser::new(lexer.tokens());
    Program::parse(&mut parser).expect("parsing always yields a program")
}

fn run(input: &str) -> String {
    let program = parse(input);
    assert!(program.errors().is_empty(), "parse errors: {:?}", program.errors());
    let mut env = Environment::empty();
    program.evaluate(&mut env).to_string()
}

#[test]
fn let_bindings_and_if() {
    assert_eq!(
        run("let a = 5; let b = a > 3; let c = a * 99; if (b) { 10 } else { 1 };"),
        "10"
    );
}

#[test]
fn closures_capture_their_environment() {
    assert_eq!(
        run("let newAdder = fn(x) { fn(y) { x + y } }; let addTwo = newAdder(2); addTwo(3);"),
        "5"
    );
}

#[test]
fn return_leaves_nested_blocks() {
    assert_eq!(run("if (10 > 1) { if (10 > 1) { return 10; } return 1; }"), "10");
}

#[test]
fn adding_a_boolean_is_a_type_mismatch() {
    assert_eq!(run("5 + true;"), "ERROR: type mismatch: INTEGER + BOOLEAN");
}

#[test]
fn unknown_identifier_is_an_error() {
    assert_eq!(run("foobar;"), "ERROR: identifier not defined: foobar");
}

#[test]
fn grouping_and_negation() {
    assert_eq!(run("((1 + 2) * 3) - -4;"), "13");
}

#[test]
fn parenthesised_printing_of_a_parsed_expression() {
    let program = parse("1 + (2 + 3) + 4");
    assert!(program.errors().is_empty());
    assert_eq!(program.to_string(), "((1 + (2 + 3)) + 4)");
}

#[test]
fn double_negation_is_truthiness() {
    assert_eq!(run("!!5"), "true");
    assert_eq!(run("!!0"), "false");
    assert_eq!(run("!!-3"), "true");
    assert_eq!(run("!!true"), "true");
    assert_eq!(run("!!false"), "false");
    assert_eq!(run("!!if (false) { 1 }"), "false");
}

#[test]
fn return_unwinds_through_blocks_inside_a_function() {
    assert_eq!(
        run("let f = fn() { if (true) { if (true) { return 7; } 8 } 9 }; f()"),
        "7"
    );
}

#[test]
fn closure_keeps_the_value_it_captured() {
    assert_eq!(
        run("let n = 4; let make = fn() { let n = 9; fn() { n } }; let g = make(); g()"),
        "9"
    );
    assert_eq!(run("let v = 1; let f = fn() { v }; let w = 2; f()"), "1");
}

#[test]
fn precedence_groups_operators() {
    let cases = [
        ("1 + 2 * 3", "(1 + (2 * 3))"),
        ("1 * 2 + 3", "((1 * 2) + 3)"),
        ("1 - 2 - 3", "((1 - 2) - 3)"),
        ("a < b == c > d", "((a < b) == (c > d))"),
        ("-a * b", "((-a) * b)"),
        ("!-a", "(!(-a))"),
        ("a + b / c", "(a + (b / c))"),
        ("a * b * c", "((a * b) * c)"),
        ("a + add(b * c) + d", "((a + add((b * c))) + d)"),
        ("x <= y != true", "((x <= y) != true)"),
    ];
    for (input, expected) in cases {
        let program = parse(input);
        assert!(program.errors().is_empty(), "{input}");
        assert_eq!(program.to_string(), expected, "{input}");
    }
}

#[test]
fn printed_form_parses_back_to_the_same_text() {
    for input in ["-(1 + x) * !y", "a + b * c - d / e", "f(1, g(2), 3) == 4"] {
        let printed = parse(input).to_string();
        let reprinted = parse(&printed).to_string();
        assert_eq!(printed, reprinted);
    }
}

#[test]
fn integer_arithmetic() {
    assert_eq!(run("7 / 2"), "3");
    assert_eq!(run("-7 / 2"), "-3");
    assert_eq!(run("7 / -2"), "-3");
    assert_eq!(run("2 * 3 - 10"), "-4");
    assert_eq!(run("3 <= 3"), "true");
    assert_eq!(run("4 >= 5"), "false");
    assert_eq!(run("1 == 1"), "true");
    assert_eq!(run("1 != 1"), "false");
}

#[test]
fn division_by_zero_is_an_error() {
    assert_eq!(run("1 / 0"), "ERROR: division by zero");
}

#[test]
fn overflow_is_an_error() {
    assert_eq!(run("9223372036854775807 + 1"), "ERROR: integer overflow");
    assert_eq!(run("-9223372036854775807 - 2"), "ERROR: integer overflow");
}

#[test]
fn boolean_operators() {
    assert_eq!(run("true == true"), "true");
    assert_eq!(run("true != false"), "true");
    assert_eq!(run("true + false"), "ERROR: unknown operator: BOOLEAN + BOOLEAN");
    assert_eq!(run("-true"), "ERROR: unknown operator: -BOOLEAN");
}

#[test]
fn rebinding_in_the_same_scope_fails() {
    assert_eq!(run("let x = 1; let x = 2;"), "ERROR: variable named x already exists");
    assert_eq!(run("let x = 1; let f = fn(x) { x }; f(5)"), "5");
}

#[test]
fn duplicate_parameters_fail() {
    assert_eq!(run("let f = fn(a, a) { a }; f(1, 2)"), "ERROR: variable named a already exists");
}

#[test]
fn call_errors() {
    assert_eq!(run("5(1)"), "ERROR: not a function: INTEGER");
    assert_eq!(run("let f = fn(a) { a }; f(1, 2)"), "ERROR: wrong number of arguments");
    assert_eq!(run("let f = fn(a) { a }; f(1 + true)"), "ERROR: type mismatch: INTEGER + BOOLEAN");
}

#[test]
fn runaway_calls_stop_with_an_error() {
    assert_eq!(
        run("let f = fn(g) { g(g) }; f(f)"),
        "ERROR: maximum call depth exceeded"
    );
}

#[test]
fn if_without_else_and_false_condition_is_null() {
    assert_eq!(run("if (0) { 1 }"), "null");
    assert_eq!(run(""), "null");
    assert_eq!(run("fn(x) { x }"), "function");
}

#[test]
fn functions_compare_by_value() {
    assert_eq!(run("fn(x) { x } == fn(x) { x }"), "true");
    assert_eq!(run("fn(x) { x } == fn(y) { y }"), "false");
}

#[test]
fn parse_errors_are_collected_and_parsing_goes_on() {
    let program = parse("let = 5; let y = 2; ) 7;");
    assert_eq!(
        program.errors(),
        &vec![
            "expected next token to be IDENTIFIER, got =".to_string(),
            "no prefix parse function for )".to_string(),
        ]
    );
    assert_eq!(program.to_string(), "let y = 2;");
}

#[test]
fn missing_brace_is_reported() {
    let program = parse("if (x) { 1");
    assert_eq!(
        program.errors(),
        &vec!["expected next token to be }, got end of input".to_string()]
    );
}

#[test]
fn oversized_integer_literal_is_reported() {
    let program = parse("99999999999999999999;");
    assert_eq!(program.errors(), &vec!["integer literal out of range".to_string()]);
}

#[test]
fn parser_error_messages() {
    let e = ParserError::WrongTokenKind { expected: TokenKind::RParenthesis, actual: None };
    assert_eq!(e.message(), "expected next token to be ), got end of input");
    let e = ParserError::MissingPrefixFn { actual: Some(TokenKind::Semicolon) };
    assert_eq!(e.message(), "no prefix parse function for ;");
}

#[test]
fn illegal_characters_become_illegal_tokens() {
    let tokens = Lexer::new("a @ 1").iter();
    let kinds: Vec<TokenKind> = tokens.iter().map(|t| t.kind).collect();
    assert_eq!(kinds, vec![TokenKind::Identifier, TokenKind::Illegal, TokenKind::Integer]);
    assert_eq!(tokens[1].literal, "@");
}

#[test]
fn two_character_operators() {
    let tokens = Lexer::new("a<=b>=c==d!=e = !f").iter();
    let kinds: Vec<TokenKind> = tokens.iter().map(|t| t.kind).collect();
    assert_eq!(
        kinds,
        vec![
            TokenKind::Identifier,
            TokenKind::LessOrEqual,
            TokenKind::Identifier,
            TokenKind::GreaterOrEqual,
            TokenKind::Identifier,
            TokenKind::Equal,
            TokenKind::Identifier,
            TokenKind::NotEqual,
            TokenKind::Identifier,
            TokenKind::Assign,
            TokenKind::Bang,
            TokenKind::Identifier,
        ]
    );
}

#[test]
fn empty_input_has_no_tokens() {
    assert!(Lexer::new("").iter().is_empty());
    assert!(Lexer::new(" \t\n ").iter().is_empty());
}

#[test]
fn environment_lookup_walks_outwards() {
    let program = parse("let x = 1;");
    let mut outer = Environment::empty();
    program.evaluate(&mut outer);
    let mut inner = Environment::new_enclosed(outer);
    let shadow = parse("let x = 2; x");
    assert_eq!(shadow.evaluate(&mut inner).to_string(), "2");
    assert_eq!(inner.outer().unwrap().get("x").unwrap().to_string(), "1");
    assert!(inner.get("nothing").is_none());
}

#[test]
fn nodes_hand_back_what_they_hold() {
    let program = parse("1;");
    let node = Node::Program(program);
    let program = node.into_program().expect("a program node");
    assert_eq!(program.to_string(), "1");
    let node = Node::Program(program);
    assert!(node.into_statement().is_none());
    let mut statements = parse("x;").statements;
    let node = Node::Statement(statements.remove(0));
    assert_eq!(node.into_statement_unchecked().to_string(), "x");
}

#[test]
fn binding_twice_in_one_scope_is_refused() {
    let mut env = Environment::empty();
    assert!(env.set("a".to_string(), Object::Integer(Integer::new(1))));
    assert!(!env.set("a".to_string(), Object::Integer(Integer::new(2))));
    assert_eq!(env.get("a").unwrap().to_string(), "1");
}

#[test]
fn integers_print_in_decimal() {
    assert_eq!(int_to_string(0), "0");
    assert_eq!(int_to_string(-120), "-120");
    assert_eq!(int_to_string(i64::MIN), "-9223372036854775808");
    assert_eq!(int_to_string(i64::MAX), "9223372036854775807");
}

#[test]
fn parser_looks_one_token_ahead() {
    let lexer = Lexer::new("let x");
    let mut parser = Parser::new(lexer.tokens());
    assert_eq!(parser.token().unwrap().kind, TokenKind::Let);
    assert_eq!(parser.peek().unwrap().literal, "x");
    assert!(matches!(
        parser.expect_token_with_kind(TokenKind::Identifier),
        Err(ParserError::WrongTokenKind { expected: TokenKind::Identifier, actual: Some(TokenKind::Let) })
    ));
    parser.advance();
    let token = parser.expect_token_with_kind(TokenKind::Identifier).unwrap();
    assert_eq!(token.literal, "x");
    assert!(parser.token().is_none());
    assert!(parser.peek().is_none());
}
