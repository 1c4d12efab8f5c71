use monkey_lexer::lexer::Lexer;
use monkey_lexer::tokens::TokenType;

#[test]
fn let_statement_tokens() {
    let mut l = Lexer::new(String::from("let five = 5;"));
    let expected = [
        (TokenType::LET, "let"),
        (TokenType::IDENT, "five"),
        (TokenType::ASSIGN, "="),
        (TokenType::INT, "5"),
        (TokenType::SEMICOLON, ";"),
        (TokenType::EOF, ""),
    ];
    for (token_type, literal) in expected.iter() {
        let tok = l.next_token();
        assert_eq!(tok.token_type, *token_type);
        assert_eq!(tok.literal.as_str(), *literal);
    }
}

#[test]
fn function_literal_tokens() {
    let mut l = Lexer::new(String::from("fn(x, y) { x + y; }"));
    let expected = [
        (TokenType::FUNCTION, "fn"),
        (TokenType::LPAREN, "("),
        (TokenType::IDENT, "x"),
        (TokenType::COMMA, ","),
        (TokenType::IDENT, "y"),
        (TokenType::RPAREN, ")"),
        (TokenType::LBRACE, "{"),
        (TokenType::IDENT, "x"),
        (TokenType::PLUS, "+"),
        (TokenType::IDENT, "y"),
        (TokenType::SEMICOLON, ";"),
        (TokenType::RBRACE, "}"),
        (TokenType::EOF, ""),
    ];
    for (token_type, literal) in expected.iter() {
        let tok = l.next_token();
        assert_eq!(tok.token_type, *token_type);
        assert_eq!(tok.literal.as_str(), *literal);
    }
}

#[test]
fn empty_input_yields_eof() {
    let mut l = Lexer::new(String::new());
    let tok = l.next_token();
    assert_eq!(tok.token_type, TokenType::EOF);
    assert_eq!(tok.literal.as_str(), "");
}

#[test]
fn illegal_symbol() {
    let mut l = Lexer::new(String::from("@"));
    let tok = l.next_token();
    assert_eq!(tok.token_type, TokenType::ILLEGAL);
    assert_eq!(tok.literal.as_str(), "@");
    let tok = l.next_token();
    assert_eq!(tok.token_type, TokenType::EOF);
}

#[test]
fn non_ascii_symbol_is_illegal() {
    let mut l = Lexer::new(String::from("é"));
    let tok = l.next_token();
    assert_eq!(tok.token_type, TokenType::ILLEGAL);
    assert_eq!(tok.literal.as_str(), "é");
    assert_eq!(l.next_token().token_type, TokenType::EOF);
}

#[test]
fn double_equal_is_one_token() {
    let mut l = Lexer::new(String::from("=="));
    let tok = l.next_token();
    assert_eq!(tok.token_type, TokenType::EQ);
    assert_eq!(tok.literal.as_str(), "==");
    assert_eq!(l.next_token().token_type, TokenType::EOF);
}

#[test]
fn bang_equal_is_one_token() {
    let mut l = Lexer::new(String::from("!="));
    let tok = l.next_token();
    assert_eq!(tok.token_type, TokenType::NotEq);
    assert_eq!(tok.literal.as_str(), "!=");
    assert_eq!(l.next_token().token_type, TokenType::EOF);
}

#[test]
fn lone_equal_is_assign() {
    let mut l = Lexer::new(String::from("="));
    let tok = l.next_token();
    assert_eq!(tok.token_type, TokenType::ASSIGN);
    assert_eq!(tok.literal.as_str(), "=");
    assert_eq!(l.next_token().token_type, TokenType::EOF);
}

#[test]
fn eof_is_idempotent() {
    let mut l = Lexer::new(String::from("x"));
    assert_eq!(l.next_token().token_type, TokenType::IDENT);
    for _ in 0..5 {
        let tok = l.next_token();
        assert_eq!(tok.token_type, TokenType::EOF);
        assert_eq!(tok.literal.as_str(), "");
    }
}

#[test]
fn scanning_terminates_within_input_length() {
    let input = String::from("let x = 5; @ # fn !=   y12\t{}");
    let bound = input.chars().count() + 1;
    let mut l = Lexer::new(input);
    let mut count = 0;
    loop {
        let tok = l.next_token();
        count += 1;
        if tok.token_type == TokenType::EOF {
            break;
        }
        assert!(count <= bound, "scanner did not reach EOF within the bound");
    }
    assert!(count <= bound);
}

#[test]
fn concatenated_texts_reproduce_input_without_whitespace() {
    let input = String::from("let add = fn(x, y) {\n  x + y;\n}; @ 5x != 10");
    let without_ws: String = input.chars().filter(|c| !c.is_ascii_whitespace()).collect();
    let mut l = Lexer::new(input);
    let mut joined = String::new();
    loop {
        let tok = l.next_token();
        if tok.token_type == TokenType::EOF {
            break;
        }
        joined.push_str(&tok.literal);
    }
    assert_eq!(joined, without_ws);
}

#[test]
fn digit_led_run_spans_trailing_letters() {
    let mut l = Lexer::new(String::from("5x"));
    let tok = l.next_token();
    assert_eq!(tok.token_type, TokenType::INT);
    assert_eq!(tok.literal.as_str(), "5x");
    assert_eq!(l.next_token().token_type, TokenType::EOF);
}

#[test]
fn keyword_boundary_in_stream() {
    let mut l = Lexer::new(String::from("lett let"));
    let tok = l.next_token();
    assert_eq!(tok.token_type, TokenType::IDENT);
    assert_eq!(tok.literal.as_str(), "lett");
    let tok = l.next_token();
    assert_eq!(tok.token_type, TokenType::LET);
    assert_eq!(tok.literal.as_str(), "let");
}
