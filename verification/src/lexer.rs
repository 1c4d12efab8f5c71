//! The executable scanner: a cursor over the source text that hands out one
//! token per call, verified against the model in [`crate::scan`].

use vstd::prelude::*;
use vstd::string::StrSliceExecFns;

use crate::scan::lemma_word_end;
use crate::scan::next_token_at;
use crate::scan::scan_at;
use crate::scan::skip_ws;
use crate::scan::word_end;
use crate::tokens::is_whitespace;
use crate::tokens::is_word_char;
use crate::tokens::spec_is_whitespace;
use crate::tokens::spec_is_word_char;
use crate::tokens::Token;
use crate::tokens::TokenType;

verus! {

/// What a scanner is, mathematically: the source text and the index of the
/// character under the cursor. The cursor equals the text length exactly
/// when the input is exhausted.
pub ghost struct LexerView {
    pub input: Seq<char>,
    pub pos: int,
}

/// A pull-based scanner over a source text. The text is fixed for the
/// scanner's lifetime; the cursor only ever moves forward.
pub struct Lexer {
    input: String,
    position: usize,
    read_position: usize,
    ch: Option<char>,
}

impl View for Lexer {
    type V = LexerView;

    closed spec fn view(&self) -> LexerView {
        LexerView { input: self.input@, pos: self.position as int }
    }
}

impl Lexer {
    /// The scanner is well-formed: the cursor lies within the text and the
    /// hidden cursor fields agree with each other. `new` establishes this and
    /// every method preserves it.
    pub open spec fn wf(&self) -> bool {
        &&& self.inv()
        &&& 0 <= self@.pos <= self@.input.len()
    }

    /// The cursor fields agree with each other: `ch` holds the character
    /// under the cursor, `read_position` points one past it, and at the end
    /// of the input both positions rest on the length with no character held.
    pub closed spec fn inv(&self) -> bool {
        if (self.position as int) < self.input@.len() {
            &&& self.read_position == self.position + 1
            &&& self.ch == Some(self.input@[self.position as int])
        } else {
            &&& self.position == self.input@.len()
            &&& self.read_position == self.position
            &&& self.ch is None
        }
    }

    /// A scanner over `input`, primed so that the first character, if any,
    /// is already under the cursor.
    pub fn new(input: String) -> (l: Lexer)
        ensures
            l.wf(),
            l@.input == input@,
            l@.pos == 0,
    {
        let len = input.as_str().unicode_len();
        if len > 0 {
            let c = input.as_str().get_char(0);
            Lexer { input, position: 0, read_position: 1, ch: Some(c) }
        } else {
            Lexer { input, position: 0, read_position: 0, ch: None }
        }
    }

    /// The index of the character under the cursor; the input length once
    /// the input is exhausted.
    pub fn position(&self) -> (p: usize)
        ensures
            p as int == self@.pos,
    {
        self.position
    }

    /// The index of the next character to be examined: one past the cursor,
    /// or the input length at the end.
    pub fn read_position(&self) -> (p: usize)
        requires
            self.wf(),
        ensures
            p as int == if self@.pos < self@.input.len() {
                self@.pos + 1
            } else {
                self@.pos
            },
    {
        self.read_position
    }

    /// The character under the cursor, or `None` once the input is
    /// exhausted.
    pub fn current_char(&self) -> (c: Option<char>)
        requires
            self.wf(),
        ensures
            c == if self@.pos < self@.input.len() {
                Some(self@.input[self@.pos])
            } else {
                None::<char>
            },
    {
        self.ch
    }

    /// Moves the cursor forward by exactly one character; idempotent at the
    /// end of the input, where the cursor stays on the length and no
    /// character is held.
    pub fn read_char(&mut self)
        requires
            old(self).wf(),
        ensures
            final(self).wf(),
            final(self)@.input == old(self)@.input,
            final(self)@.pos == if old(self)@.pos < old(self)@.input.len() {
                old(self)@.pos + 1
            } else {
                old(self)@.pos
            },
    {
        let len = self.input.as_str().unicode_len();
        if self.read_position < len {
            let c = self.input.as_str().get_char(self.read_position);
            self.ch = Some(c);
            self.position = self.read_position;
            self.read_position = self.read_position + 1;
        } else {
            self.ch = None;
            self.position = len;
            self.read_position = len;
        }
    }

    /// Whether the character under the cursor is whitespace.
    fn at_whitespace(&self) -> (b: bool)
        requires
            self.wf(),
        ensures
            b == (self@.pos < self@.input.len() && spec_is_whitespace(self@.input[self@.pos])),
    {
        match self.ch {
            Some(c) => is_whitespace(c),
            None => false,
        }
    }

    /// Whether the character under the cursor is alphanumeric.
    fn at_word_char(&self) -> (b: bool)
        requires
            self.wf(),
        ensures
            b == (self@.pos < self@.input.len() && spec_is_word_char(self@.input[self@.pos])),
    {
        match self.ch {
            Some(c) => is_word_char(c),
            None => false,
        }
    }

    /// Consumes the maximal alphanumeric run that starts at the cursor and
    /// returns its text; the cursor ends on the first character past the
    /// run. Reads identifiers, keywords and integer literals alike.
    pub fn read_identifier(&mut self) -> (literal: String)
        requires
            old(self).wf(),
        ensures
            final(self).wf(),
            final(self)@.input == old(self)@.input,
            final(self)@.pos == word_end(old(self)@.input, old(self)@.pos),
            literal@ == old(self)@.input.subrange(
                old(self)@.pos,
                word_end(old(self)@.input, old(self)@.pos),
            ),
    {
        let ghost s: Seq<char> = self@.input;
        let ghost p0: int = self@.pos;
        let start = self.position;
        while self.at_word_char()
            invariant
                self.wf(),
                self@.input == s,
                start as int <= self@.pos,
                word_end(s, self@.pos) == word_end(s, p0),
            decreases s.len() - self@.pos,
        {
            self.read_char();
        }
        let end = self.position;
        self.input.as_str().substring_char(start, end).to_owned()
    }

    /// The token that starts exactly at the cursor, as category and text;
    /// the cursor is advanced past it. Expects whitespace to have been
    /// skipped already: a whitespace character here is an `ILLEGAL` token.
    fn match_token_type(&mut self) -> (r: (TokenType, String))
        requires
            old(self).wf(),
        ensures
            final(self).wf(),
            final(self)@.input == old(self)@.input,
            r.0 == scan_at(old(self)@.input, old(self)@.pos).0,
            r.1@ == scan_at(old(self)@.input, old(self)@.pos).1,
            final(self)@.pos == scan_at(old(self)@.input, old(self)@.pos).2,
    {
        let ghost s: Seq<char> = self@.input;
        let ghost j: int = self@.pos;
        match self.ch {
            None => {
                // At the end of the input the cursor does not move further.
                self.read_char();
                (TokenType::EOF, String::new())
            },
            Some(c) => {
                let start = self.position;
                if c == '=' {
                    let two = match self.peek_char() {
                        Some(p) => p == '=',
                        None => false,
                    };
                    if two {
                        self.read_char();
                        self.read_char();
                        let end = self.position;
                        (TokenType::EQ, self.input.as_str().substring_char(start, end).to_owned())
                    } else {
                        self.read_char();
                        let end = self.position;
                        (
                            TokenType::ASSIGN,
                            self.input.as_str().substring_char(start, end).to_owned(),
                        )
                    }
                } else if c == '!' {
                    let two = match self.peek_char() {
                        Some(p) => p == '=',
                        None => false,
                    };
                    if two {
                        self.read_char();
                        self.read_char();
                        let end = self.position;
                        (
                            TokenType::NotEq,
                            self.input.as_str().substring_char(start, end).to_owned(),
                        )
                    } else {
                        self.read_char();
                        let end = self.position;
                        (TokenType::BANG, self.input.as_str().substring_char(start, end).to_owned())
                    }
                } else if is_word_char(c) {
                    proof {
                        lemma_word_end(s, j);
                    }
                    let literal = self.read_identifier();
                    let token_type = Token::look_up_ident(literal.clone());
                    (token_type, literal)
                } else {
                    let token_type = if c == '+' {
                        TokenType::PLUS
                    } else if c == '-' {
                        TokenType::MINUS
                    } else if c == '*' {
                        TokenType::ASTERISK
                    } else if c == '/' {
                        TokenType::SLASH
                    } else if c == '<' {
                        TokenType::LT
                    } else if c == '>' {
                        TokenType::GT
                    } else if c == '(' {
                        TokenType::LPAREN
                    } else if c == ')' {
                        TokenType::RPAREN
                    } else if c == '{' {
                        TokenType::LBRACE
                    } else if c == '}' {
                        TokenType::RBRACE
                    } else if c == ',' {
                        TokenType::COMMA
                    } else if c == ';' {
                        TokenType::SEMICOLON
                    } else {
                        TokenType::ILLEGAL
                    };
                    self.read_char();
                    let end = self.position;
                    (token_type, self.input.as_str().substring_char(start, end).to_owned())
                }
            },
        }
    }

    /// The sole token-producing operation: skips whitespace, then returns the
    /// next token and advances the cursor past it. Exactly
    /// [`next_token_at`] applied to the source and the cursor.
    pub fn next_token(&mut self) -> (t: Token)
        requires
            old(self).wf(),
        ensures
            final(self).wf(),
            final(self)@.input == old(self)@.input,
            t.token_type == next_token_at(old(self)@.input, old(self)@.pos).0,
            t.literal@ == next_token_at(old(self)@.input, old(self)@.pos).1,
            final(self)@.pos == next_token_at(old(self)@.input, old(self)@.pos).2,
    {
        let ghost s: Seq<char> = self@.input;
        let ghost i0: int = self@.pos;
        while self.at_whitespace()
            invariant
                self.wf(),
                self@.input == s,
                skip_ws(s, self@.pos) == skip_ws(s, i0),
            decreases s.len() - self@.pos,
        {
            self.read_char();
        }
        let (token_type, literal) = self.match_token_type();
        Token::new(token_type, literal)
    }

    /// The character one position ahead of the cursor, without moving it, or
    /// `None` when no such character exists.
    pub fn peek_char(&self) -> (c: Option<char>)
        requires
            self.wf(),
        ensures
            c == if self@.pos + 1 < self@.input.len() {
                Some(self@.input[self@.pos + 1])
            } else {
                None::<char>
            },
    {
        let len = self.input.as_str().unicode_len();
        if self.read_position >= len {
            None
        } else {
            Some(self.input.as_str().get_char(self.read_position))
        }
    }
}

} // verus!
