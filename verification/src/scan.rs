//! The mathematical model of scanning: for a source text and a cursor, which
//! token comes next, what text it covers, and where the cursor lands. The
//! executable scanner in [`crate::lexer`] is verified against these
//! functions, and the laws of the scanner are proved here.

use vstd::prelude::*;
use vstd::seq_lib::*;

use crate::tokens::classify_word;
use crate::tokens::spec_is_whitespace;
use crate::tokens::spec_is_word_char;
use crate::tokens::TokenType;

verus! {

/// The index of the first character at or after `i` that is not whitespace,
/// or the end of the text when only whitespace remains.
pub open spec fn skip_ws(s: Seq<char>, i: int) -> int
    decreases s.len() - i,
{
    if 0 <= i < s.len() && spec_is_whitespace(s[i]) {
        skip_ws(s, i + 1)
    } else {
        i
    }
}

/// The end of the maximal alphanumeric run that starts at `i`: the first
/// index at or after `i` whose character is not alphanumeric, or the end of
/// the text.
pub open spec fn word_end(s: Seq<char>, i: int) -> int
    decreases s.len() - i,
{
    if 0 <= i < s.len() && spec_is_word_char(s[i]) {
        word_end(s, i + 1)
    } else {
        i
    }
}

/// The token that starts exactly at index `j` (no whitespace skipping):
/// its category, its text, and the cursor position after it. At the end of
/// the text the token is `EOF` with empty text and the cursor stays.
pub open spec fn scan_at(s: Seq<char>, j: int) -> (TokenType, Seq<char>, int) {
    if !(0 <= j < s.len()) {
        (TokenType::EOF, Seq::<char>::empty(), j)
    } else {
        let c = s[j];
        if c == '=' {
            if j + 1 < s.len() && s[j + 1] == '=' {
                (TokenType::EQ, s.subrange(j, j + 2), j + 2)
            } else {
                (TokenType::ASSIGN, s.subrange(j, j + 1), j + 1)
            }
        } else if c == '!' {
            if j + 1 < s.len() && s[j + 1] == '=' {
                (TokenType::NotEq, s.subrange(j, j + 2), j + 2)
            } else {
                (TokenType::BANG, s.subrange(j, j + 1), j + 1)
            }
        } else if c == '+' {
            (TokenType::PLUS, s.subrange(j, j + 1), j + 1)
        } else if c == '-' {
            (TokenType::MINUS, s.subrange(j, j + 1), j + 1)
        } else if c == '*' {
            (TokenType::ASTERISK, s.subrange(j, j + 1), j + 1)
        } else if c == '/' {
            (TokenType::SLASH, s.subrange(j, j + 1), j + 1)
        } else if c == '<' {
            (TokenType::LT, s.subrange(j, j + 1), j + 1)
        } else if c == '>' {
            (TokenType::GT, s.subrange(j, j + 1), j + 1)
        } else if c == '(' {
            (TokenType::LPAREN, s.subrange(j, j + 1), j + 1)
        } else if c == ')' {
            (TokenType::RPAREN, s.subrange(j, j + 1), j + 1)
        } else if c == '{' {
            (TokenType::LBRACE, s.subrange(j, j + 1), j + 1)
        } else if c == '}' {
            (TokenType::RBRACE, s.subrange(j, j + 1), j + 1)
        } else if c == ',' {
            (TokenType::COMMA, s.subrange(j, j + 1), j + 1)
        } else if c == ';' {
            (TokenType::SEMICOLON, s.subrange(j, j + 1), j + 1)
        } else if spec_is_word_char(c) {
            (
                classify_word(s.subrange(j, word_end(s, j))),
                s.subrange(j, word_end(s, j)),
                word_end(s, j),
            )
        } else {
            (TokenType::ILLEGAL, s.subrange(j, j + 1), j + 1)
        }
    }
}

/// The next token from cursor `i`: whitespace is skipped, then the token at
/// the stopping point is taken.
pub open spec fn next_token_at(s: Seq<char>, i: int) -> (TokenType, Seq<char>, int) {
    scan_at(s, skip_ws(s, i))
}

/// `skip_ws` lands between `i` and the end, skips only whitespace, and stops
/// only at the end or at a non-whitespace character.
pub proof fn lemma_skip_ws(s: Seq<char>, i: int)
    requires
        0 <= i <= s.len(),
    ensures
        i <= skip_ws(s, i) <= s.len(),
        forall|k: int| i <= k < skip_ws(s, i) ==> spec_is_whitespace(#[trigger] s[k]),
        skip_ws(s, i) < s.len() ==> !spec_is_whitespace(s[skip_ws(s, i)]),
    decreases s.len() - i,
{
    if i < s.len() && spec_is_whitespace(s[i]) {
        lemma_skip_ws(s, i + 1);
    }
}

/// `word_end` lands between `i` and the end, covers only alphanumeric
/// characters, and stops only at the end or at a non-alphanumeric character.
pub proof fn lemma_word_end(s: Seq<char>, i: int)
    requires
        0 <= i <= s.len(),
    ensures
        i <= word_end(s, i) <= s.len(),
        forall|k: int| i <= k < word_end(s, i) ==> spec_is_word_char(#[trigger] s[k]),
        word_end(s, i) < s.len() ==> !spec_is_word_char(s[word_end(s, i)]),
        i < s.len() && spec_is_word_char(s[i]) ==> word_end(s, i) > i,
    decreases s.len() - i,
{
    if i < s.len() && spec_is_word_char(s[i]) {
        lemma_word_end(s, i + 1);
    }
}

/// The token at `j` covers exactly the text from `j` to the cursor after it:
/// the cursor never moves backwards or past the end, it stands still exactly
/// on `EOF`, and the text is the covered slice of the source.
pub proof fn lemma_scan_at(s: Seq<char>, j: int)
    requires
        0 <= j <= s.len(),
    ensures
        ({
            let (kind, text, next) = scan_at(s, j);
            &&& j <= next <= s.len()
            &&& (kind == TokenType::EOF <==> j == s.len())
            &&& (kind != TokenType::EOF ==> next > j)
            &&& text == s.subrange(j, next)
        }),
{
    if j < s.len() {
        lemma_word_end(s, j);
    } else {
        assert(s.subrange(j, j) =~= Seq::<char>::empty());
    }
}

/// Progress: scanning never moves the cursor backwards or past the end, a
/// non-`EOF` token always moves it strictly forward, and `EOF` comes exactly
/// when only whitespace remains.
pub proof fn lemma_next_token_progress(s: Seq<char>, i: int)
    requires
        0 <= i <= s.len(),
    ensures
        ({
            let (kind, text, next) = next_token_at(s, i);
            &&& i <= next <= s.len()
            &&& (kind != TokenType::EOF ==> next > i)
            &&& (kind == TokenType::EOF <==> skip_ws(s, i) == s.len())
        }),
{
    lemma_skip_ws(s, i);
    lemma_scan_at(s, skip_ws(s, i));
}

/// Idempotent `EOF`: when the token from cursor `i` is `EOF`, the cursor
/// rests at the end of the text, and from there every further token is again
/// `EOF` with empty text and an unmoved cursor.
pub proof fn lemma_eof_idempotent(s: Seq<char>, i: int)
    requires
        0 <= i <= s.len(),
        next_token_at(s, i).0 == TokenType::EOF,
    ensures
        next_token_at(s, i).2 == s.len(),
        next_token_at(s, s.len() as int) == (
            TokenType::EOF,
            Seq::<char>::empty(),
            s.len() as int,
        ),
{
    lemma_skip_ws(s, i);
    lemma_scan_at(s, skip_ws(s, i));
}

/// Every token the scanner yields from cursor `i`, as category and text, up
/// to and including the final `EOF`. That this recursion is accepted — the
/// cursor strictly advances until `EOF` is reached — is the scanner's
/// totality.
pub open spec fn tokenize(s: Seq<char>, i: int) -> Seq<(TokenType, Seq<char>)>
    decreases s.len() - i
        when 0 <= i <= s.len()
        via tokenize_decreases
{
    let r = next_token_at(s, i);
    if r.0 == TokenType::EOF {
        seq![(r.0, r.1)]
    } else {
        seq![(r.0, r.1)] + tokenize(s, r.2)
    }
}

#[via_fn]
proof fn tokenize_decreases(s: Seq<char>, i: int) {
    lemma_next_token_progress(s, i);
}

/// Totality: from any cursor the scanner terminates after finitely many
/// calls — it yields at most one token per remaining character plus the
/// final `EOF` — and `EOF` is exactly the last token of the sequence.
pub proof fn lemma_tokenize_total(s: Seq<char>, i: int)
    requires
        0 <= i <= s.len(),
    ensures
        ({
            let toks = tokenize(s, i);
            &&& 1 <= toks.len() <= s.len() - i + 1
            &&& toks.last().0 == TokenType::EOF
            &&& forall|k: int|
                0 <= k < toks.len() - 1 ==> (#[trigger] toks[k]).0 != TokenType::EOF
        }),
    decreases s.len() - i,
{
    lemma_next_token_progress(s, i);
    let r = next_token_at(s, i);
    if r.0 != TokenType::EOF {
        lemma_tokenize_total(s, r.2);
    }
}

/// The texts of a token sequence, concatenated in emission order.
pub open spec fn texts_of(toks: Seq<(TokenType, Seq<char>)>) -> Seq<char>
    decreases toks.len(),
{
    if toks.len() == 0 {
        Seq::<char>::empty()
    } else {
        toks[0].1 + texts_of(toks.drop_first())
    }
}

/// The source text with every whitespace character removed.
pub open spec fn strip_whitespace(s: Seq<char>) -> Seq<char> {
    s.filter(|c: char| !spec_is_whitespace(c))
}

/// A text of whitespace characters only strips to nothing.
proof fn lemma_strip_all_ws(s: Seq<char>)
    requires
        forall|k: int| 0 <= k < s.len() ==> spec_is_whitespace(#[trigger] s[k]),
    ensures
        strip_whitespace(s) == Seq::<char>::empty(),
    decreases s.len(),
{
    reveal(Seq::filter);
    if s.len() > 0 {
        lemma_strip_all_ws(s.drop_last());
    }
}

/// A text without whitespace characters strips to itself.
proof fn lemma_strip_no_ws(s: Seq<char>)
    requires
        forall|k: int| 0 <= k < s.len() ==> !spec_is_whitespace(#[trigger] s[k]),
    ensures
        strip_whitespace(s) == s,
    decreases s.len(),
{
    reveal(Seq::filter);
    if s.len() > 0 {
        lemma_strip_no_ws(s.drop_last());
        assert(strip_whitespace(s) =~= s);
    } else {
        assert(strip_whitespace(s) =~= s);
    }
}

/// No token text contains whitespace, provided the token does not start on a
/// whitespace character (scanning skips whitespace before every token).
proof fn lemma_token_text_no_ws(s: Seq<char>, j: int)
    requires
        0 <= j <= s.len(),
        j < s.len() ==> !spec_is_whitespace(s[j]),
    ensures
        ({
            let (kind, text, next) = scan_at(s, j);
            forall|k: int| 0 <= k < text.len() ==> !spec_is_whitespace(#[trigger] text[k])
        }),
{
    if j < s.len() {
        lemma_word_end(s, j);
    }
}

/// Order preservation: concatenating the texts of all tokens, in emission
/// order, reproduces the source from the cursor on with its whitespace
/// removed — no character is duplicated or dropped.
pub proof fn lemma_order_preservation(s: Seq<char>, i: int)
    requires
        0 <= i <= s.len(),
    ensures
        texts_of(tokenize(s, i)) == strip_whitespace(s.subrange(i, s.len() as int)),
    decreases s.len() - i,
{
    lemma_skip_ws(s, i);
    let j = skip_ws(s, i);
    lemma_scan_at(s, j);
    lemma_next_token_progress(s, i);
    let r = next_token_at(s, i);
    let kind = r.0;
    let text = r.1;
    let next = r.2;
    let rest = s.subrange(i, s.len() as int);
    let ws_part = s.subrange(i, j);
    lemma_strip_all_ws(ws_part);
    lemma_token_text_no_ws(s, j);
    lemma_strip_no_ws(text);
    let toks = tokenize(s, i);
    assert(toks[0].1 == text);
    if kind == TokenType::EOF {
        assert(rest =~= ws_part);
        assert(toks.drop_first() =~= Seq::<(TokenType, Seq<char>)>::empty());
        assert(texts_of(toks) == text + texts_of(toks.drop_first()));
        assert(texts_of(toks) =~= strip_whitespace(rest));
    } else {
        lemma_order_preservation(s, next);
        assert(rest =~= ws_part + text + s.subrange(next, s.len() as int));
        Seq::<char>::filter_distributes_over_add(
            ws_part + text,
            s.subrange(next, s.len() as int),
            |c: char| !spec_is_whitespace(c),
        );
        Seq::<char>::filter_distributes_over_add(ws_part, text, |c: char| !spec_is_whitespace(c));
        assert(toks.drop_first() =~= tokenize(s, next));
        assert(texts_of(toks) == text + texts_of(tokenize(s, next)));
        assert(texts_of(toks) =~= strip_whitespace(rest));
    }
}

} // verus!
