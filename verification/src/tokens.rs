//! The token model: lexical categories, the token value, and the
//! classification of alphanumeric runs into keywords, identifiers and
//! integer literals.

use vstd::prelude::*;
use vstd::string::StringExecFns;
use vstd::string::StrSliceExecFns;

verus! {

/// The closed set of lexical categories a token can carry.
#[derive(Debug, Clone, Copy, PartialEq, Eq, Structural)]
pub enum TokenType {
    ILLEGAL,
    EOF,
    // Identifiers + literals
    IDENT,
    INT,
    // Operators
    ASSIGN,
    PLUS,
    MINUS,
    BANG,
    ASTERISK,
    SLASH,
    // Comparison operators
    LT,
    GT,
    EQ,
    NotEq,
    // Delimiters
    COMMA,
    SEMICOLON,
    LPAREN,
    RPAREN,
    LBRACE,
    RBRACE,
    // Keywords
    FUNCTION,
    LET,
    TRUE,
    FALSE,
    IF,
    ELSE,
    RETURN,
}

/// An ASCII letter: the characters that may start an identifier or keyword.
pub open spec fn spec_is_letter(c: char) -> bool {
    ('a' <= c && c <= 'z') || ('A' <= c && c <= 'Z')
}

#[verifier::when_used_as_spec(spec_is_letter)]
pub fn is_letter(c: char) -> (b: bool)
    ensures
        b == spec_is_letter(c),
{
    ('a' <= c && c <= 'z') || ('A' <= c && c <= 'Z')
}

/// An ASCII decimal digit.
pub open spec fn spec_is_digit(c: char) -> bool {
    '0' <= c && c <= '9'
}

#[verifier::when_used_as_spec(spec_is_digit)]
pub fn is_digit(c: char) -> (b: bool)
    ensures
        b == spec_is_digit(c),
{
    '0' <= c && c <= '9'
}

/// A character that may continue an identifier, keyword or integer run:
/// identifiers and numbers are both scanned as maximal alphanumeric runs
/// and differ only at classification.
pub open spec fn spec_is_word_char(c: char) -> bool {
    spec_is_letter(c) || spec_is_digit(c)
}

#[verifier::when_used_as_spec(spec_is_word_char)]
pub fn is_word_char(c: char) -> (b: bool)
    ensures
        b == spec_is_word_char(c),
{
    is_letter(c) || is_digit(c)
}

/// An ASCII whitespace character: space, tab, line feed, form feed or
/// carriage return. Whitespace separates tokens and is never emitted.
pub open spec fn spec_is_whitespace(c: char) -> bool {
    c == ' ' || c == '\t' || c == '\n' || c == '\x0c' || c == '\r'
}

#[verifier::when_used_as_spec(spec_is_whitespace)]
pub fn is_whitespace(c: char) -> (b: bool)
    ensures
        b == spec_is_whitespace(c),
{
    c == ' ' || c == '\t' || c == '\n' || c == '\x0c' || c == '\r'
}

/// The category of a non-empty alphanumeric run: `INT` when it starts with a
/// digit, otherwise the category of the keyword it matches exactly, and
/// `IDENT` when it matches no keyword. Matching is case-sensitive and on the
/// whole run, never on a prefix: `lett` is an `IDENT`, not `LET`.
pub open spec fn classify_word(w: Seq<char>) -> TokenType {
    if w.len() == 0 {
        TokenType::IDENT
    } else if spec_is_digit(w[0]) {
        TokenType::INT
    } else if w == "fn"@ {
        TokenType::FUNCTION
    } else if w == "let"@ {
        TokenType::LET
    } else if w == "true"@ {
        TokenType::TRUE
    } else if w == "false"@ {
        TokenType::FALSE
    } else if w == "if"@ {
        TokenType::IF
    } else if w == "else"@ {
        TokenType::ELSE
    } else if w == "return"@ {
        TokenType::RETURN
    } else {
        TokenType::IDENT
    }
}

/// One lexical unit: a category together with the exact source text that
/// produced it. The text is empty only for the end-of-input marker.
#[derive(Debug, PartialEq)]
pub struct Token {
    pub token_type: TokenType,
    pub literal: String,
}

impl Token {
    /// Pairs a category with its matched text; no validation beyond storing
    /// the two fields.
    pub fn new(token_type: TokenType, literal: String) -> (t: Token)
        ensures
            t.token_type == token_type,
            t.literal == literal,
    {
        Token { token_type, literal }
    }

    /// Classifies a non-empty alphanumeric run as a keyword, identifier or
    /// integer literal, exactly as [`classify_word`] states.
    pub fn look_up_ident(literal: String) -> (t: TokenType)
        requires
            literal@.len() > 0,
        ensures
            t == classify_word(literal@),
    {
        let c0 = literal.as_str().get_char(0);
        if is_digit(c0) {
            TokenType::INT
        } else if literal == String::from_str("fn") {
            TokenType::FUNCTION
        } else if literal == String::from_str("let") {
            TokenType::LET
        } else if literal == String::from_str("true") {
            TokenType::TRUE
        } else if literal == String::from_str("false") {
            TokenType::FALSE
        } else if literal == String::from_str("if") {
            TokenType::IF
        } else if literal == String::from_str("else") {
            TokenType::ELSE
        } else if literal == String::from_str("return") {
            TokenType::RETURN
        } else {
            TokenType::IDENT
        }
    }
}

} // verus!
