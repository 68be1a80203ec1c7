//! The mathematical model of scanning: where whitespace skipping stops,
//! where each class of run ends, which token starts at a position, and the
//! token stream a whole input denotes.
//!
//! Positions are character offsets into the source sequence. All functions
//! take the source and a position; the scanner's contracts say that its
//! executable steps compute exactly these functions of its state.

use vstd::prelude::*;

use crate::chars::{alphabetic_char, alphanumeric_char, decimal_digit, whitespace_char};
use crate::token::{SpecToken, TokenType};

verus! {

/// The first position at or after `i` whose character is not whitespace, or
/// the end of the source.
pub open spec fn skip_ws(src: Seq<char>, i: int) -> int
    decreases src.len() - i when 0 <= i <= src.len()
{
    if i < src.len() && whitespace_char(src[i]) {
        skip_ws(src, i + 1)
    } else {
        i
    }
}

/// The end of the maximal alphanumeric run starting at `i`.
pub open spec fn alnum_end(src: Seq<char>, i: int) -> int
    decreases src.len() - i when 0 <= i <= src.len()
{
    if i < src.len() && alphanumeric_char(src[i]) {
        alnum_end(src, i + 1)
    } else {
        i
    }
}

/// The end of the maximal run of alphabetic-or-`.` characters starting at
/// `i`: the body of an attribute identifier.
pub open spec fn attr_end(src: Seq<char>, i: int) -> int
    decreases src.len() - i when 0 <= i <= src.len()
{
    if i < src.len() && (alphabetic_char(src[i]) || src[i] == '.') {
        attr_end(src, i + 1)
    } else {
        i
    }
}

/// The end of the maximal run of decimal digits starting at `i`.
pub open spec fn digits_end(src: Seq<char>, i: int) -> int
    decreases src.len() - i when 0 <= i <= src.len()
{
    if i < src.len() && decimal_digit(src[i]) {
        digits_end(src, i + 1)
    } else {
        i
    }
}

/// The position of the first `"` at or after `i`, or the end of the source:
/// where the body of a string literal stops.
pub open spec fn string_end(src: Seq<char>, i: int) -> int
    decreases src.len() - i when 0 <= i <= src.len()
{
    if i < src.len() && src[i] != '"' {
        string_end(src, i + 1)
    } else {
        i
    }
}

/// The eight fixed one-character symbols.
pub open spec fn symbol_char(c: char) -> bool {
    c == '(' || c == ')' || c == '{' || c == '}' || c == '[' || c == ']' || c == '?' || c == '!'
}

/// The kind of a fixed one-character symbol.
pub open spec fn symbol_kind(c: char) -> TokenType {
    if c == '(' {
        TokenType::OpenParen
    } else if c == ')' {
        TokenType::CloseParen
    } else if c == '{' {
        TokenType::OpenBrace
    } else if c == '}' {
        TokenType::CloseBrace
    } else if c == '[' {
        TokenType::OpenSquare
    } else if c == ']' {
        TokenType::CloseSquare
    } else if c == '?' {
        TokenType::Optional
    } else {
        TokenType::Final
    }
}

/// The kind of an alphanumeric word: one of the six keywords when it is that
/// keyword's spelling, case-sensitively and as a whole word, else a plain
/// identifier.
pub open spec fn word_kind(s: Seq<char>) -> TokenType {
    if s == "plugin"@ {
        TokenType::Plugin
    } else if s == "prop"@ {
        TokenType::Prop
    } else if s == "enum"@ {
        TokenType::Enum
    } else if s == "model"@ {
        TokenType::Model
    } else if s == "type"@ {
        TokenType::Type
    } else if s == "use"@ {
        TokenType::Use
    } else {
        TokenType::Identifier
    }
}

/// Whether a token may start at position `j`, `j` already past any
/// whitespace: the end of the source, a symbol, an alphabetic character, `@`
/// followed by an alphabetic character, `"`, a digit, or `-` followed by a
/// digit. At any other character the scan fails.
pub open spec fn token_start_ok(src: Seq<char>, j: int) -> bool {
    ||| j == src.len()
    ||| symbol_char(src[j])
    ||| alphabetic_char(src[j])
    ||| (src[j] == '@' && j + 1 < src.len() && alphabetic_char(src[j + 1]))
    ||| src[j] == '"'
    ||| decimal_digit(src[j])
    ||| (src[j] == '-' && j + 1 < src.len() && decimal_digit(src[j + 1]))
}

/// Whether the scan of the next token from position `i` finds a rule.
pub open spec fn scan_ok(src: Seq<char>, i: int) -> bool {
    token_start_ok(src, skip_ws(src, i))
}

/// The numeric token starting at `i`: an optional `-`, a digit run, and,
/// when a `.` follows, the `.` and a further digit run making a float
/// literal, else an integer literal. The raw text is the whole matched
/// slice.
pub open spec fn number_token(src: Seq<char>, i: int) -> SpecToken {
    let d0 = if src[i] == '-' {
        i + 1
    } else {
        i
    };
    let d = digits_end(src, d0);
    if d < src.len() && src[d] == '.' {
        let f = digits_end(src, d + 1);
        SpecToken { kind: TokenType::FloatLiteral, start: i, end: f, text: src.subrange(i, f) }
    } else {
        SpecToken { kind: TokenType::IntegerLiteral, start: i, end: d, text: src.subrange(i, d) }
    }
}

/// The end-of-input token: a zero-width span at the end of the source with
/// empty raw text.
pub open spec fn eof_token(src: Seq<char>) -> SpecToken {
    SpecToken {
        kind: TokenType::EOF,
        start: src.len() as int,
        end: src.len() as int,
        text: Seq::empty(),
    }
}

/// The token the scan of `src` from position `i` produces, classified by the
/// first character past the whitespace, first matching rule first:
/// end-of-input, fixed symbol, identifier or keyword, attribute, string
/// literal, number. For string literals the text excludes the quotes and for
/// attributes the leading `@`; otherwise it is the matched slice itself.
pub open spec fn token_at(src: Seq<char>, i: int) -> SpecToken {
    let j = skip_ws(src, i);
    if j == src.len() {
        eof_token(src)
    } else if symbol_char(src[j]) {
        SpecToken { kind: symbol_kind(src[j]), start: j, end: j + 1, text: seq![src[j]] }
    } else if alphabetic_char(src[j]) {
        let e = alnum_end(src, j);
        SpecToken { kind: word_kind(src.subrange(j, e)), start: j, end: e, text: src.subrange(j, e) }
    } else if src[j] == '@' && j + 1 < src.len() && alphabetic_char(src[j + 1]) {
        let e = attr_end(src, j + 1);
        SpecToken {
            kind: TokenType::AttributeIdentifier,
            start: j,
            end: e,
            text: src.subrange(j + 1, e),
        }
    } else if src[j] == '"' {
        let e = string_end(src, j + 1);
        SpecToken { kind: TokenType::StringLiteral, start: j, end: e, text: src.subrange(j + 1, e) }
    } else {
        number_token(src, j)
    }
}

/// Where the cursor stands after producing the token at `i`: at the end of
/// the source for end-of-input, one past the symbol for a fixed symbol, and
/// one past the token's span for the multi-character scans — their closing
/// advance consumes one further character (the closing quote of a string
/// literal), capped at the end of the source.
pub open spec fn next_cursor(src: Seq<char>, i: int) -> int {
    let j = skip_ws(src, i);
    if j == src.len() {
        src.len() as int
    } else if symbol_char(src[j]) {
        j + 1
    } else {
        let e = token_at(src, i).end;
        if e < src.len() {
            e + 1
        } else {
            src.len() as int
        }
    }
}

/// The whole token sequence a source denotes, scanned from position `i`:
/// one token per step, closed by the end-of-input token. Where the scan
/// reaches a character no rule matches, the sequence stops short — the
/// scanner's callers are to stay within `scan_ok` states.
pub open spec fn token_stream(src: Seq<char>, i: int) -> Seq<SpecToken>
    decreases src.len() - i when 0 <= i <= src.len()
{
    if skip_ws(src, i) == src.len() {
        seq![eof_token(src)]
    } else if token_start_ok(src, skip_ws(src, i)) {
        proof {
            lemma_token_at_bounds(src, i);
        }
        seq![token_at(src, i)] + token_stream(src, next_cursor(src, i))
    } else {
        Seq::empty()
    }
}

/// Whitespace skipping stays within the source, passes only whitespace, and
/// stops at the end or at a non-whitespace character.
pub proof fn lemma_skip_ws(src: Seq<char>, i: int)
    requires
        0 <= i <= src.len(),
    ensures
        i <= skip_ws(src, i) <= src.len(),
        forall|k: int| i <= k < skip_ws(src, i) ==> whitespace_char(src[k]),
        skip_ws(src, i) < src.len() ==> !whitespace_char(src[skip_ws(src, i)]),
    decreases src.len() - i,
{
    if i < src.len() && whitespace_char(src[i]) {
        lemma_skip_ws(src, i + 1);
    }
}

/// A position past only whitespace that sits at the end or at a
/// non-whitespace character is exactly where whitespace skipping stops.
pub proof fn lemma_skip_ws_stops(src: Seq<char>, i: int, p: int)
    requires
        0 <= i <= p <= src.len(),
        forall|k: int| i <= k < p ==> whitespace_char(src[k]),
        p == src.len() || !whitespace_char(src[p]),
    ensures
        skip_ws(src, i) == p,
    decreases p - i,
{
    if i < p {
        lemma_skip_ws_stops(src, i + 1, p);
    }
}

/// The alphanumeric run stays within the source.
pub proof fn lemma_alnum_end(src: Seq<char>, i: int)
    requires
        0 <= i <= src.len(),
    ensures
        i <= alnum_end(src, i) <= src.len(),
    decreases src.len() - i,
{
    if i < src.len() && alphanumeric_char(src[i]) {
        lemma_alnum_end(src, i + 1);
    }
}

/// A position past only alphanumeric characters that sits at the end or at
/// a non-alphanumeric character is exactly where the alphanumeric run ends.
pub proof fn lemma_alnum_end_stops(src: Seq<char>, i: int, p: int)
    requires
        0 <= i <= p <= src.len(),
        forall|k: int| i <= k < p ==> alphanumeric_char(src[k]),
        p == src.len() || !alphanumeric_char(src[p]),
    ensures
        alnum_end(src, i) == p,
    decreases p - i,
{
    if i < p {
        lemma_alnum_end_stops(src, i + 1, p);
    }
}

/// The attribute run stays within the source.
pub proof fn lemma_attr_end(src: Seq<char>, i: int)
    requires
        0 <= i <= src.len(),
    ensures
        i <= attr_end(src, i) <= src.len(),
    decreases src.len() - i,
{
    if i < src.len() && (alphabetic_char(src[i]) || src[i] == '.') {
        lemma_attr_end(src, i + 1);
    }
}

/// A position past only alphabetic-or-`.` characters that sits at the end
/// or at a character of neither sort is exactly where the attribute run
/// ends.
pub proof fn lemma_attr_end_stops(src: Seq<char>, i: int, p: int)
    requires
        0 <= i <= p <= src.len(),
        forall|k: int| i <= k < p ==> alphabetic_char(src[k]) || src[k] == '.',
        p == src.len() || !(alphabetic_char(src[p]) || src[p] == '.'),
    ensures
        attr_end(src, i) == p,
    decreases p - i,
{
    if i < p {
        lemma_attr_end_stops(src, i + 1, p);
    }
}

/// The digit run stays within the source.
pub proof fn lemma_digits_end(src: Seq<char>, i: int)
    requires
        0 <= i <= src.len(),
    ensures
        i <= digits_end(src, i) <= src.len(),
    decreases src.len() - i,
{
    if i < src.len() && decimal_digit(src[i]) {
        lemma_digits_end(src, i + 1);
    }
}

/// A position past only digits that sits at the end or at a non-digit is
/// exactly where the digit run ends.
pub proof fn lemma_digits_end_stops(src: Seq<char>, i: int, p: int)
    requires
        0 <= i <= p <= src.len(),
        forall|k: int| i <= k < p ==> decimal_digit(src[k]),
        p == src.len() || !decimal_digit(src[p]),
    ensures
        digits_end(src, i) == p,
    decreases p - i,
{
    if i < p {
        lemma_digits_end_stops(src, i + 1, p);
    }
}

/// The string body stays within the source.
pub proof fn lemma_string_end(src: Seq<char>, i: int)
    requires
        0 <= i <= src.len(),
    ensures
        i <= string_end(src, i) <= src.len(),
    decreases src.len() - i,
{
    if i < src.len() && src[i] != '"' {
        lemma_string_end(src, i + 1);
    }
}

/// A position past only non-quote characters that sits at the end or at a
/// quote is exactly where the string body stops.
pub proof fn lemma_string_end_stops(src: Seq<char>, i: int, p: int)
    requires
        0 <= i <= p <= src.len(),
        forall|k: int| i <= k < p ==> src[k] != '"',
        p == src.len() || src[p] == '"',
    ensures
        string_end(src, i) == p,
    decreases p - i,
{
    if i < p {
        lemma_string_end_stops(src, i + 1, p);
    }
}

/// The token at any position lies within the source, after any leading
/// whitespace; where a rule matches, every token but end-of-input is
/// non-empty; and the cursor afterwards stands at or past the token's span
/// end, within the source, strictly past the call's own position unless the
/// scan already stood at end-of-input.
pub proof fn lemma_token_at_bounds(src: Seq<char>, i: int)
    requires
        0 <= i <= src.len(),
    ensures
        i <= skip_ws(src, i) <= token_at(src, i).start,
        token_at(src, i).start <= token_at(src, i).end <= src.len(),
        skip_ws(src, i) < src.len() ==> token_at(src, i).start == skip_ws(src, i),
        skip_ws(src, i) < src.len() && token_start_ok(src, skip_ws(src, i)) ==> token_at(
            src,
            i,
        ).start < token_at(src, i).end,
        token_at(src, i).end <= next_cursor(src, i) <= src.len(),
        skip_ws(src, i) < src.len() ==> i < next_cursor(src, i),
        skip_ws(src, i) == src.len() ==> token_at(src, i) == eof_token(src) && next_cursor(src, i)
            == src.len(),
{
    lemma_skip_ws(src, i);
    let j = skip_ws(src, i);
    if j < src.len() {
        let c = src[j];
        if symbol_char(c) {
        } else if alphabetic_char(c) {
            lemma_alnum_end(src, j + 1);
        } else if c == '@' && j + 1 < src.len() && alphabetic_char(src[j + 1]) {
            lemma_attr_end(src, j + 2);
        } else if c == '"' {
            lemma_string_end(src, j + 1);
        } else {
            let d0: int = if c == '-' {
                j + 1
            } else {
                j
            };
            lemma_digits_end(src, d0);
            if decimal_digit(c) {
                lemma_digits_end(src, j + 1);
            }
            let d = digits_end(src, d0);
            if d < src.len() && src[d] == '.' {
                lemma_digits_end(src, d + 1);
            }
        }
    }
}

} // verus!
