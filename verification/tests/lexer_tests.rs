use lexer::lexer::Lexer;
use lexer::token::{Token, TokenType};

/// Pulls tokens until the first end-of-input token, inclusive.
fn scan_all(input: &str) -> Vec<Token> {
    let mut lx = Lexer::new(input.to_string());
    let mut tokens = Vec::new();
    loop {
        let token = lx.next_token();
        let done = token.token_type == TokenType::Eof;
        tokens.push(token);
        if done {
            break;
        }
    }
    tokens
}

fn kinds_and_literals(tokens: &[Token]) -> Vec<(TokenType, String)> {
    tokens.iter().map(|t| (t.token_type, t.literal.clone())).collect()
}

#[test]
fn test_next_token() {
    let input: &str = "
            let two = 2;
            let add = fn(x, y) {
                x + y;
            };
            let result = add(two, two);
        ";
    let mut lexer = Lexer::new(input.to_string());

    let expected_tokens = vec![
        Token::new(TokenType::Let, "let".to_string()),
        Token::new(TokenType::Ident, "two".to_string()),
        Token::new(TokenType::Assign, "=".to_string()),
        Token::new(TokenType::Int, "2".to_string()),
        Token::new(TokenType::Semicolon, ";".to_string()),
        Token::new(TokenType::Let, "let".to_string()),
        Token::new(TokenType::Ident, "add".to_string()),
        Token::new(TokenType::Assign, "=".to_string()),
        Token::new(TokenType::Function, "fn".to_string()),
        Token::new(TokenType::Lparen, "(".to_string()),
        Token::new(TokenType::Ident, "x".to_string()),
        Token::new(TokenType::Comma, ",".to_string()),
        Token::new(TokenType::Ident, "y".to_string()),
        Token::new(TokenType::Rparen, ")".to_string()),
        Token::new(TokenType::Lbrace, "{".to_string()),
        Token::new(TokenType::Ident, "x".to_string()),
        Token::new(TokenType::Plus, "+".to_string()),
        Token::new(TokenType::Ident, "y".to_string()),
        Token::new(TokenType::Semicolon, ";".to_string()),
        Token::new(TokenType::Rbrace, "}".to_string()),
        Token::new(TokenType::Semicolon, ";".to_string()),
        Token::new(TokenType::Let, "let".to_string()),
        Token::new(TokenType::Ident, "result".to_string()),
        Token::new(TokenType::Assign, "=".to_string()),
        Token::new(TokenType::Ident, "add".to_string()),
        Token::new(TokenType::Lparen, "(".to_string()),
        Token::new(TokenType::Ident, "two".to_string()),
        Token::new(TokenType::Comma, ",".to_string()),
        Token::new(TokenType::Ident, "two".to_string()),
        Token::new(TokenType::Rparen, ")".to_string()),
        Token::new(TokenType::Semicolon, ";".to_string()),
        Token::new(TokenType::Eof, "".to_string()),
    ];

    for expected in expected_tokens {
        let token = lexer.next_token();
        assert_eq!(token, expected);
    }
}

#[test]
fn scenario_let_statement() {
    let tokens = scan_all("let two = 2;");
    let expected = vec![
        (TokenType::Let, "let".to_string()),
        (TokenType::Ident, "two".to_string()),
        (TokenType::Assign, "=".to_string()),
        (TokenType::Int, "2".to_string()),
        (TokenType::Semicolon, ";".to_string()),
        (TokenType::Eof, "".to_string()),
    ];
    assert_eq!(kinds_and_literals(&tokens), expected);
}

#[test]
fn scenario_no_whitespace() {
    let tokens = scan_all("x+y");
    let expected = vec![
        (TokenType::Ident, "x".to_string()),
        (TokenType::Plus, "+".to_string()),
        (TokenType::Ident, "y".to_string()),
        (TokenType::Eof, "".to_string()),
    ];
    assert_eq!(kinds_and_literals(&tokens), expected);
}

#[test]
fn scenario_illegal_character() {
    let tokens = scan_all("@");
    let expected = vec![
        (TokenType::Illegal, "@".to_string()),
        (TokenType::Eof, "".to_string()),
    ];
    assert_eq!(kinds_and_literals(&tokens), expected);
}

#[test]
fn scenario_empty_input() {
    let mut lx = Lexer::new("".to_string());
    for _ in 0..4 {
        let token = lx.next_token();
        assert_eq!(token.token_type, TokenType::Eof);
        assert_eq!(token.literal, "".to_string());
    }
}

#[test]
fn scenario_function_literal() {
    let tokens = scan_all("let add = fn(x, y) { x + y; };");
    let expected = vec![
        (TokenType::Let, "let".to_string()),
        (TokenType::Ident, "add".to_string()),
        (TokenType::Assign, "=".to_string()),
        (TokenType::Function, "fn".to_string()),
        (TokenType::Lparen, "(".to_string()),
        (TokenType::Ident, "x".to_string()),
        (TokenType::Comma, ",".to_string()),
        (TokenType::Ident, "y".to_string()),
        (TokenType::Rparen, ")".to_string()),
        (TokenType::Lbrace, "{".to_string()),
        (TokenType::Ident, "x".to_string()),
        (TokenType::Plus, "+".to_string()),
        (TokenType::Ident, "y".to_string()),
        (TokenType::Semicolon, ";".to_string()),
        (TokenType::Rbrace, "}".to_string()),
        (TokenType::Semicolon, ";".to_string()),
        (TokenType::Eof, "".to_string()),
    ];
    assert_eq!(kinds_and_literals(&tokens), expected);
}

#[test]
fn end_of_input_is_idempotent() {
    let mut lx = Lexer::new("x".to_string());
    let first = lx.next_token();
    assert_eq!(first.token_type, TokenType::Ident);
    let eof = lx.next_token();
    assert_eq!(eof.token_type, TokenType::Eof);
    assert_eq!(eof.literal, "".to_string());
    for _ in 0..3 {
        let again = lx.next_token();
        assert_eq!(again, Token::new(TokenType::Eof, "".to_string()));
    }
}

#[test]
fn keyword_lookup() {
    assert_eq!(Token::lookup_ident("fn"), TokenType::Function);
    assert_eq!(Token::lookup_ident("let"), TokenType::Let);
    assert_eq!(Token::lookup_ident("lets"), TokenType::Ident);
    assert_eq!(Token::lookup_ident("le"), TokenType::Ident);
    assert_eq!(Token::lookup_ident("fns"), TokenType::Ident);
    assert_eq!(Token::lookup_ident("f"), TokenType::Ident);
    assert_eq!(Token::lookup_ident(""), TokenType::Ident);
}

#[test]
fn keywords_scan_as_keywords() {
    let tokens = scan_all("fn let letx fnord");
    let expected = vec![
        (TokenType::Function, "fn".to_string()),
        (TokenType::Let, "let".to_string()),
        (TokenType::Ident, "letx".to_string()),
        (TokenType::Ident, "fnord".to_string()),
        (TokenType::Eof, "".to_string()),
    ];
    assert_eq!(kinds_and_literals(&tokens), expected);
}

#[test]
fn maximal_munch_runs() {
    let tokens = scan_all("abc_def 1234");
    let expected = vec![
        (TokenType::Ident, "abc_def".to_string()),
        (TokenType::Int, "1234".to_string()),
        (TokenType::Eof, "".to_string()),
    ];
    assert_eq!(kinds_and_literals(&tokens), expected);
}

#[test]
fn digit_ends_identifier_run() {
    // Digits never continue an identifier: the run stops and an integer run
    // starts.
    let tokens = scan_all("x1 foo123bar");
    let expected = vec![
        (TokenType::Ident, "x".to_string()),
        (TokenType::Int, "1".to_string()),
        (TokenType::Ident, "foo".to_string()),
        (TokenType::Int, "123".to_string()),
        (TokenType::Ident, "bar".to_string()),
        (TokenType::Eof, "".to_string()),
    ];
    assert_eq!(kinds_and_literals(&tokens), expected);
}

#[test]
fn illegal_does_not_halt_scanning() {
    let tokens = scan_all("a@b #");
    let expected = vec![
        (TokenType::Ident, "a".to_string()),
        (TokenType::Illegal, "@".to_string()),
        (TokenType::Ident, "b".to_string()),
        (TokenType::Illegal, "#".to_string()),
        (TokenType::Eof, "".to_string()),
    ];
    assert_eq!(kinds_and_literals(&tokens), expected);
}

#[test]
fn whitespace_kinds_are_skipped() {
    let tokens = scan_all("\t a \r\n b ");
    let expected = vec![
        (TokenType::Ident, "a".to_string()),
        (TokenType::Ident, "b".to_string()),
        (TokenType::Eof, "".to_string()),
    ];
    assert_eq!(kinds_and_literals(&tokens), expected);
}

#[test]
fn only_whitespace_yields_end_of_input() {
    let tokens = scan_all("   \n\t ");
    assert_eq!(
        kinds_and_literals(&tokens),
        vec![(TokenType::Eof, "".to_string())]
    );
}

#[test]
fn multibyte_characters_survive_scanning() {
    // Alphabetic characters outside ASCII join identifier runs; slicing the
    // literal must not split their encodings.
    let tokens = scan_all("héllo + wörld");
    let expected = vec![
        (TokenType::Ident, "héllo".to_string()),
        (TokenType::Plus, "+".to_string()),
        (TokenType::Ident, "wörld".to_string()),
        (TokenType::Eof, "".to_string()),
    ];
    assert_eq!(kinds_and_literals(&tokens), expected);

    let tokens = scan_all("α+β");
    let expected = vec![
        (TokenType::Ident, "α".to_string()),
        (TokenType::Plus, "+".to_string()),
        (TokenType::Ident, "β".to_string()),
        (TokenType::Eof, "".to_string()),
    ];
    assert_eq!(kinds_and_literals(&tokens), expected);
}

#[test]
fn coverage_accounts_for_every_character() {
    // Whitespace skipped plus literal lengths equals the input length, in
    // characters, for inputs of every token class.
    let inputs = [
        "let two = 2;",
        "x+y",
        "@",
        "",
        "let add = fn(x, y) { x + y; };",
        "  a@b \t 12 _x \r\n",
        "héllo + wörld",
    ];
    for input in inputs {
        let tokens = scan_all(input);
        let literal_chars: usize = tokens.iter().map(|t| t.literal.chars().count()).sum();
        let ws_chars = input
            .chars()
            .filter(|c| *c == ' ' || *c == '\t' || *c == '\n' || *c == '\r')
            .count();
        assert_eq!(literal_chars + ws_chars, input.chars().count());
    }
}

#[test]
fn token_new_keeps_its_parts() {
    let token = Token::new(TokenType::Int, "42".to_string());
    assert_eq!(token.token_type, TokenType::Int);
    assert_eq!(token.literal, "42".to_string());
}

#[test]
fn underscore_starts_and_joins_identifiers() {
    let tokens = scan_all("_ _a a_b_c");
    let expected = vec![
        (TokenType::Ident, "_".to_string()),
        (TokenType::Ident, "_a".to_string()),
        (TokenType::Ident, "a_b_c".to_string()),
        (TokenType::Eof, "".to_string()),
    ];
    assert_eq!(kinds_and_literals(&tokens), expected);
}

#[test]
fn punctuation_literals_come_from_source() {
    let tokens = scan_all("=+,;(){}");
    let expected = vec![
        (TokenType::Assign, "=".to_string()),
        (TokenType::Plus, "+".to_string()),
        (TokenType::Comma, ",".to_string()),
        (TokenType::Semicolon, ";".to_string()),
        (TokenType::Lparen, "(".to_string()),
        (TokenType::Rparen, ")".to_string()),
        (TokenType::Lbrace, "{".to_string()),
        (TokenType::Rbrace, "}".to_string()),
        (TokenType::Eof, "".to_string()),
    ];
    assert_eq!(kinds_and_literals(&tokens), expected);
}
