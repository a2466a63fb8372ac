use lox::scanner::Scanner;
use lox::scanner::Token;
use lox::scanner::TokenLiteral;
use lox::scanner::TokenType;

fn plain(token_type: TokenType, lexeme: &str) -> Token {
    Token::new(token_type, lexeme.to_string(), TokenLiteral::NoLiteral, 1usize)
}

#[test]
fn basic() {
    let mut scanner = Scanner::new(String::from(
        "() {} , . - + ; / * ! != = == > >= < <= this_is_an_identifier \"Hello, world!\" 123.456 and class else false fun for if nil or print return super this true var while",
    ));
    let tokens = scanner.scan_tokens();
    let expected_tokens = vec![
        plain(TokenType::LeftParen, "("),
        plain(TokenType::RightParen, ")"),
        plain(TokenType::LeftBrace, "{"),
        plain(TokenType::RightBrace, "}"),
        plain(TokenType::Comma, ","),
        plain(TokenType::Dot, "."),
        plain(TokenType::Minus, "-"),
        plain(TokenType::Plus, "+"),
        plain(TokenType::Semicolon, ";"),
        plain(TokenType::Slash, "/"),
        plain(TokenType::Star, "*"),
        plain(TokenType::Bang, "!"),
        plain(TokenType::BangEqual, "!="),
        plain(TokenType::Equal, "="),
        plain(TokenType::EqualEqual, "=="),
        plain(TokenType::Greater, ">"),
        plain(TokenType::GreaterEqual, ">="),
        plain(TokenType::Less, "<"),
        plain(TokenType::LessEqual, "<="),
        Token::new(
            TokenType::Identifier,
            "this_is_an_identifier".to_string(),
            TokenLiteral::Str("this_is_an_identifier".to_string()),
            1usize,
        ),
        Token::new(
            TokenType::String,
            "Hello, world!".to_string(),
            TokenLiteral::Str("Hello, world!".to_string()),
            1usize,
        ),
        Token::new(
            TokenType::Number,
            "123.456".to_string(),
            TokenLiteral::Num("123.456".to_string()),
            1usize,
        ),
        plain(TokenType::And, "and"),
        plain(TokenType::Class, "class"),
        plain(TokenType::Else, "else"),
        plain(TokenType::False, "false"),
        plain(TokenType::Fun, "fun"),
        plain(TokenType::For, "for"),
        plain(TokenType::If, "if"),
        plain(TokenType::Nil, "nil"),
        plain(TokenType::Or, "or"),
        plain(TokenType::Print, "print"),
        plain(TokenType::Return, "return"),
        plain(TokenType::Super, "super"),
        plain(TokenType::This, "this"),
        plain(TokenType::True, "true"),
        plain(TokenType::Var, "var"),
        plain(TokenType::While, "while"),
        plain(TokenType::EOF, ""),
    ];

    for (idx, t) in tokens.iter().enumerate() {
        let e = &expected_tokens[idx];
        assert_eq!(t, e);
    }
    assert_eq!(tokens.len(), expected_tokens.len());
    assert!(scanner.errors().is_empty());
}

#[test]
fn every_scan_ends_with_eof() {
    for source in ["", "a + b", "\"unterminated", "@#$", "/* open", "1\n2\n"] {
        let mut scanner = Scanner::new(source.to_string());
        let tokens = scanner.scan_tokens();
        let last = tokens.last().expect("a scan always yields at least the terminal token");
        assert_eq!(last.token_type, TokenType::EOF);
        assert_eq!(last.lexeme, "");
    }
}

#[test]
fn lexeme_concatenation_reproduces_meaningful_source() {
    let source = "var x = 12.5; // trailing comment\nprint (\"hi\") /* gap */ <= done";
    let mut scanner = Scanner::new(source.to_string());
    let tokens = scanner.scan_tokens();
    assert!(scanner.errors().is_empty());
    let concatenated: String = tokens.iter().map(|t| t.lexeme.as_str()).collect();
    assert_eq!(concatenated, "varx=12.5;print(hi)<=done");
}

#[test]
fn keyword_takes_precedence_over_identifier() {
    let mut scanner = Scanner::new("while".to_string());
    let tokens = scanner.scan_tokens();
    assert_eq!(tokens.len(), 2);
    assert_eq!(tokens[0], plain(TokenType::While, "while"));

    let mut scanner = Scanner::new("whiletrue".to_string());
    let tokens = scanner.scan_tokens();
    assert_eq!(tokens.len(), 2);
    assert_eq!(
        tokens[0],
        Token::new(
            TokenType::Identifier,
            "whiletrue".to_string(),
            TokenLiteral::Str("whiletrue".to_string()),
            1usize,
        )
    );
}

#[test]
fn two_char_operator_is_greedy() {
    let mut scanner = Scanner::new("<=".to_string());
    let tokens = scanner.scan_tokens();
    assert_eq!(tokens.len(), 2);
    assert_eq!(tokens[0], plain(TokenType::LessEqual, "<="));
    assert_eq!(tokens[1].token_type, TokenType::EOF);
}

#[test]
fn string_literal_quotes_are_stripped() {
    let mut scanner = Scanner::new("\"Hello, world!\"".to_string());
    let tokens = scanner.scan_tokens();
    assert_eq!(tokens.len(), 2);
    assert_eq!(tokens[0].token_type, TokenType::String);
    assert_eq!(tokens[0].lexeme, "Hello, world!");
    assert_eq!(tokens[0].literal, TokenLiteral::Str("Hello, world!".to_string()));
}

#[test]
fn unterminated_string_reports_one_error() {
    let mut scanner = Scanner::new("\"abc".to_string());
    let tokens = scanner.scan_tokens();
    assert_eq!(tokens.len(), 1);
    assert_eq!(tokens[0].token_type, TokenType::EOF);
    let errors = scanner.errors();
    assert_eq!(errors.len(), 1);
    assert_eq!(errors[0].line, 1);
    assert_eq!(errors[0].message, "Unterminated string.");
}

#[test]
fn line_numbers_follow_newlines() {
    let mut scanner = Scanner::new("1\n2\n3".to_string());
    let tokens = scanner.scan_tokens();
    assert_eq!(tokens.len(), 4);
    for (idx, expected_line) in [(0usize, 1usize), (1, 2), (2, 3)] {
        assert_eq!(tokens[idx].token_type, TokenType::Number);
        assert_eq!(tokens[idx].line, expected_line);
    }
    assert_eq!(tokens[3].token_type, TokenType::EOF);
    assert_eq!(tokens[3].line, 3);
}

#[test]
fn scanning_twice_from_fresh_state_agrees() {
    let source = "fun f(a, b) { return a * (b - 1); } // done\n\"s\" @ 4.25";
    let mut first = Scanner::new(source.to_string());
    let first_tokens = first.scan_tokens();
    let mut second = Scanner::new(source.to_string());
    let second_tokens = second.scan_tokens();
    assert_eq!(first_tokens, second_tokens);
    let first_errors: Vec<(usize, String)> =
        first.errors().iter().map(|e| (e.line, e.message.clone())).collect();
    let second_errors: Vec<(usize, String)> =
        second.errors().iter().map(|e| (e.line, e.message.clone())).collect();
    assert_eq!(first_errors, second_errors);
}

#[test]
fn unexpected_character_is_reported_and_dropped() {
    let mut scanner = Scanner::new("@".to_string());
    let tokens = scanner.scan_tokens();
    assert_eq!(tokens.len(), 1);
    assert_eq!(tokens[0].token_type, TokenType::EOF);
    let errors = scanner.errors();
    assert_eq!(errors.len(), 1);
    assert_eq!(errors[0].line, 1);
    assert_eq!(errors[0].message, "Unexpected character: @");
}

#[test]
fn comments_are_skipped_and_lines_counted() {
    let mut scanner = Scanner::new("1\n/*x\ny*/\n2 // end".to_string());
    let tokens = scanner.scan_tokens();
    assert_eq!(tokens.len(), 3);
    assert_eq!(tokens[0].token_type, TokenType::Number);
    assert_eq!(tokens[0].line, 1);
    assert_eq!(tokens[1].token_type, TokenType::Number);
    assert_eq!(tokens[1].lexeme, "2");
    assert_eq!(tokens[1].line, 4);
    assert!(scanner.errors().is_empty());
}

#[test]
fn unterminated_block_comment_is_swallowed_silently() {
    let mut scanner = Scanner::new("7 /* never closed".to_string());
    let tokens = scanner.scan_tokens();
    assert_eq!(tokens.len(), 2);
    assert_eq!(tokens[0].token_type, TokenType::Number);
    assert_eq!(tokens[1].token_type, TokenType::EOF);
    assert!(scanner.errors().is_empty());
}

#[test]
fn trailing_dot_is_not_part_of_a_number() {
    let mut scanner = Scanner::new("1. 2.5.3".to_string());
    let tokens = scanner.scan_tokens();
    let kinds: Vec<TokenType> = tokens.iter().map(|t| t.token_type).collect();
    assert_eq!(
        kinds,
        vec![
            TokenType::Number,
            TokenType::Dot,
            TokenType::Number,
            TokenType::Dot,
            TokenType::Number,
            TokenType::EOF,
        ]
    );
    assert_eq!(tokens[0].lexeme, "1");
    assert_eq!(tokens[2].lexeme, "2.5");
    assert_eq!(tokens[4].lexeme, "3");
}

#[test]
fn string_literal_may_span_lines() {
    let mut scanner = Scanner::new("\"a\nb\" c".to_string());
    let tokens = scanner.scan_tokens();
    assert_eq!(tokens.len(), 3);
    assert_eq!(tokens[0].token_type, TokenType::String);
    assert_eq!(tokens[0].lexeme, "a\nb");
    assert_eq!(tokens[0].line, 1);
    assert_eq!(tokens[1].token_type, TokenType::Identifier);
    assert_eq!(tokens[1].line, 2);
    assert!(scanner.errors().is_empty());
}

#[test]
fn block_comment_closes_on_first_star_slash() {
    let mut scanner = Scanner::new("/**/x /* a */ */".to_string());
    let tokens = scanner.scan_tokens();
    let kinds: Vec<TokenType> = tokens.iter().map(|t| t.token_type).collect();
    assert_eq!(
        kinds,
        vec![TokenType::Identifier, TokenType::Star, TokenType::Slash, TokenType::EOF]
    );
    assert_eq!(tokens[0].lexeme, "x");
}

#[test]
fn token_renders_as_diagnostic_line() {
    let token = Token::new(
        TokenType::Number,
        "12.5".to_string(),
        TokenLiteral::Num("12.5".to_string()),
        1usize,
    );
    assert_eq!(token.render(), "type: 'Number', lexeme: '12.5', literal: '12.5'");
    let token = plain(TokenType::LeftParen, "(");
    assert_eq!(token.render(), "type: 'LeftParen', lexeme: '(', literal: None");
    assert_eq!(TokenType::While.render(), "While");
}
