//! The scanner: a single cursor over the character buffer that classifies
//! and extracts the next token on each call.

use vstd::prelude::*;
use vstd::string::StrSliceExecFns;

use crate::chars::{
    char_is_alphabetic, char_is_alphanumeric, char_is_decimal_digit, char_is_whitespace,
    char_string, push_char,
};
use crate::chars::{alphabetic_char, alphanumeric_char, decimal_digit, whitespace_char};
use crate::scan::{
    alnum_end, attr_end, lemma_alnum_end_stops, lemma_attr_end_stops, lemma_digits_end_stops,
    lemma_skip_ws_stops, lemma_string_end_stops, lemma_token_at_bounds, next_cursor, number_token,
    scan_ok, string_end, token_at, word_kind,
};
use crate::token::{Token, TokenType};

verus! {

/// The scanner. It owns the source text as a character buffer and a cursor
/// into it, with the character under the cursor cached.
pub struct Lexer {
    pub source: Vec<char>,
    pub position: usize,
    pub current_char: Option<char>,
}

impl Lexer {
    /// The cursor stays within the buffer, one past its last character at
    /// most, and the cache holds the character under the cursor, or nothing
    /// exactly when the cursor is at the end.
    pub open spec fn wf(&self) -> bool {
        &&& self.position <= self.source@.len()
        &&& self.current_char == (if (self.position as int) < self.source@.len() {
            Some(self.source@[self.position as int])
        } else {
            None::<char>
        })
    }

    /// A scanner over the given text, positioned at offset 0. Always
    /// succeeds; empty input is valid and immediately yields an end-of-input
    /// token.
    pub fn new(input: &str) -> (lexer: Lexer)
        ensures
            lexer.wf(),
            lexer.source@ == input@,
            lexer.position == 0,
    {
        let n = input.unicode_len();
        let mut source: Vec<char> = Vec::new();
        let mut i: usize = 0;
        while i < n
            invariant
                i <= n,
                n == input@.len(),
                source@ =~= input@.take(i as int),
            decreases n - i,
        {
            source.push(input.get_char(i));
            i = i + 1;
        }
        proof {
            assert(source@ =~= input@);
        }
        let current_char = if source.len() > 0 {
            Some(source[0])
        } else {
            None
        };
        Lexer { source, position: 0, current_char }
    }

    /// Moves the cursor one character forward and refreshes the cache; once
    /// the cursor is at the end it stays there, so calling past the end
    /// keeps reporting no current character.
    fn advance(&mut self)
        requires
            old(self).wf(),
        ensures
            final(self).wf(),
            final(self).source@ == old(self).source@,
            final(self).position == (if (old(self).position as int) < old(self).source@.len() {
                old(self).position + 1
            } else {
                old(self).position as int
            }),
    {
        if self.position < self.source.len() {
            self.position = self.position + 1;
        }
        self.current_char = if self.position < self.source.len() {
            Some(self.source[self.position])
        } else {
            None
        };
    }

    /// The character immediately after the cursor, without moving it, or
    /// nothing at the end of input.
    fn peek(&self) -> (c: Option<char>)
        requires
            self.wf(),
        ensures
            c == (if self.position as int + 1 < self.source@.len() {
                Some(self.source@[self.position as int + 1])
            } else {
                None::<char>
            }),
    {
        if self.position < self.source.len() {
            let next = self.position + 1;
            if next < self.source.len() {
                Some(self.source[next])
            } else {
                None
            }
        } else {
            None
        }
    }

    /// Whether the cursor stands on a whitespace character.
    fn at_whitespace(&self) -> (b: bool)
        requires
            self.wf(),
        ensures
            b == ((self.position as int) < self.source@.len() && whitespace_char(
                self.source@[self.position as int],
            )),
    {
        match self.current_char {
            Some(c) => char_is_whitespace(c),
            None => false,
        }
    }

    /// Whether the cursor stands on an alphanumeric character.
    fn at_alphanumeric(&self) -> (b: bool)
        requires
            self.wf(),
        ensures
            b == ((self.position as int) < self.source@.len() && alphanumeric_char(
                self.source@[self.position as int],
            )),
    {
        match self.current_char {
            Some(c) => char_is_alphanumeric(c),
            None => false,
        }
    }

    /// Whether the cursor stands on a character of an attribute body: an
    /// alphabetic character or `.`.
    fn at_attr_char(&self) -> (b: bool)
        requires
            self.wf(),
        ensures
            b == ((self.position as int) < self.source@.len() && (alphabetic_char(
                self.source@[self.position as int],
            ) || self.source@[self.position as int] == '.')),
    {
        match self.current_char {
            Some(c) => char_is_alphabetic(c) || c == '.',
            None => false,
        }
    }

    /// Whether the cursor stands on a decimal digit.
    fn at_digit(&self) -> (b: bool)
        requires
            self.wf(),
        ensures
            b == ((self.position as int) < self.source@.len() && decimal_digit(
                self.source@[self.position as int],
            )),
    {
        match self.current_char {
            Some(c) => char_is_decimal_digit(c),
            None => false,
        }
    }

    /// Whether the cursor stands on a character other than the closing
    /// quote: still inside the body of a string literal.
    fn in_string_body(&self) -> (b: bool)
        requires
            self.wf(),
        ensures
            b == ((self.position as int) < self.source@.len()
                && self.source@[self.position as int] != '"'),
    {
        match self.current_char {
            Some(c) => c != '"',
            None => false,
        }
    }

    /// Whether the cursor stands on exactly the given character.
    fn at_char(&self, c: char) -> (b: bool)
        requires
            self.wf(),
        ensures
            b == ((self.position as int) < self.source@.len()
                && self.source@[self.position as int] == c),
    {
        match self.current_char {
            Some(cur) => cur == c,
            None => false,
        }
    }

    /// Consumes the maximal alphanumeric run at the cursor and returns it as
    /// a keyword token when it spells one of the six keywords, else as a
    /// plain identifier; the raw text is the run itself.
    fn read_identifier(&mut self) -> (t: Token)
        requires
            old(self).wf(),
            (old(self).position as int) < old(self).source@.len(),
            alphabetic_char(old(self).source@[old(self).position as int]),
        ensures
            final(self).wf(),
            final(self).source@ == old(self).source@,
            final(self).position == alnum_end(old(self).source@, old(self).position as int),
            t.token_type == word_kind(
                old(self).source@.subrange(
                    old(self).position as int,
                    final(self).position as int,
                ),
            ),
            t.start == old(self).position,
            t.end == final(self).position,
            t.raw@ == old(self).source@.subrange(
                old(self).position as int,
                final(self).position as int,
            ),
    {
        let ghost src = self.source@;
        let ghost start0 = self.position as int;
        let start = self.position;
        let mut raw = String::new();
        proof {
            assert(raw@ =~= src.subrange(start0, start0));
        }
        while self.at_alphanumeric()
            invariant
                self.wf(),
                self.source@ == src,
                0 <= start0 <= self.position as int <= src.len(),
                forall|k: int| start0 <= k < self.position as int ==> alphanumeric_char(src[k]),
                raw@ == src.subrange(start0, self.position as int),
            decreases src.len() - self.position as int,
        {
            let c = self.current_char.unwrap();
            push_char(&mut raw, c);
            proof {
                assert(raw@ =~= src.subrange(start0, self.position as int + 1));
            }
            self.advance();
        }
        proof {
            lemma_alnum_end_stops(src, start0, self.position as int);
        }
        let token_type = keyword_lookup(&raw);
        Token { token_type, start, end: self.position, raw }
    }

    /// Consumes the leading `@`, then the maximal run of alphabetic-or-`.`
    /// characters, as one attribute-identifier token whose raw text is the
    /// dotted path with the sigil stripped.
    fn read_attribute(&mut self) -> (t: Token)
        requires
            old(self).wf(),
            (old(self).position as int) + 1 < old(self).source@.len(),
            old(self).source@[old(self).position as int] == '@',
            alphabetic_char(old(self).source@[old(self).position as int + 1]),
        ensures
            final(self).wf(),
            final(self).source@ == old(self).source@,
            final(self).position == attr_end(old(self).source@, old(self).position as int + 1),
            t.token_type == TokenType::AttributeIdentifier,
            t.start == old(self).position,
            t.end == final(self).position,
            t.raw@ == old(self).source@.subrange(
                old(self).position as int + 1,
                final(self).position as int,
            ),
    {
        let ghost src = self.source@;
        let ghost start0 = self.position as int;
        let start = self.position;
        self.advance();
        let mut raw = String::new();
        proof {
            assert(raw@ =~= src.subrange(start0 + 1, start0 + 1));
        }
        while self.at_attr_char()
            invariant
                self.wf(),
                self.source@ == src,
                0 <= start0 && start0 + 1 <= self.position as int <= src.len(),
                forall|k: int|
                    start0 + 1 <= k < self.position as int ==> alphabetic_char(src[k]) || src[k]
                        == '.',
                raw@ == src.subrange(start0 + 1, self.position as int),
            decreases src.len() - self.position as int,
        {
            let c = self.current_char.unwrap();
            push_char(&mut raw, c);
            proof {
                assert(raw@ =~= src.subrange(start0 + 1, self.position as int + 1));
            }
            self.advance();
        }
        proof {
            lemma_attr_end_stops(src, start0 + 1, self.position as int);
        }
        Token { token_type: TokenType::AttributeIdentifier, start, end: self.position, raw }
    }

    /// Consumes the opening quote, then every character up to but excluding
    /// the next `"` or the end of input, as one string-literal token whose
    /// raw text excludes the quotes. An unterminated string is not detected:
    /// the scan stops at end-of-input with the text accumulated so far.
    fn read_string(&mut self) -> (t: Token)
        requires
            old(self).wf(),
            (old(self).position as int) < old(self).source@.len(),
            old(self).source@[old(self).position as int] == '"',
        ensures
            final(self).wf(),
            final(self).source@ == old(self).source@,
            final(self).position == string_end(old(self).source@, old(self).position as int + 1),
            t.token_type == TokenType::StringLiteral,
            t.start == old(self).position,
            t.end == final(self).position,
            t.raw@ == old(self).source@.subrange(
                old(self).position as int + 1,
                final(self).position as int,
            ),
    {
        let ghost src = self.source@;
        let ghost start0 = self.position as int;
        let start = self.position;
        self.advance();
        let mut raw = String::new();
        proof {
            assert(raw@ =~= src.subrange(start0 + 1, start0 + 1));
        }
        while self.in_string_body()
            invariant
                self.wf(),
                self.source@ == src,
                0 <= start0 && start0 + 1 <= self.position as int <= src.len(),
                forall|k: int| start0 + 1 <= k < self.position as int ==> src[k] != '"',
                raw@ == src.subrange(start0 + 1, self.position as int),
            decreases src.len() - self.position as int,
        {
            let c = self.current_char.unwrap();
            push_char(&mut raw, c);
            proof {
                assert(raw@ =~= src.subrange(start0 + 1, self.position as int + 1));
            }
            self.advance();
        }
        proof {
            lemma_string_end_stops(src, start0 + 1, self.position as int);
        }
        Token { token_type: TokenType::StringLiteral, start, end: self.position, raw }
    }

    /// Consumes an optional leading `-`, a maximal digit run, and, when a
    /// `.` follows, the `.` and a further maximal digit run, yielding a
    /// float literal — even with an empty fractional run — else an integer
    /// literal. The raw text is the whole matched slice.
    fn read_number(&mut self) -> (t: Token)
        requires
            old(self).wf(),
            (old(self).position as int) < old(self).source@.len(),
            decimal_digit(old(self).source@[old(self).position as int]) || (old(
                self,
            ).source@[old(self).position as int] == '-' && (old(self).position as int) + 1 < old(
                self,
            ).source@.len() && decimal_digit(old(self).source@[old(self).position as int + 1])),
        ensures
            final(self).wf(),
            final(self).source@ == old(self).source@,
            t@ == number_token(old(self).source@, old(self).position as int),
            final(self).position == t.end,
    {
        let ghost src = self.source@;
        let ghost start0 = self.position as int;
        let start = self.position;
        let mut raw = String::new();
        proof {
            assert(raw@ =~= src.subrange(start0, start0));
        }
        if self.at_char('-') {
            let c = self.current_char.unwrap();
            push_char(&mut raw, c);
            proof {
                assert(raw@ =~= src.subrange(start0, start0 + 1));
            }
            self.advance();
        }
        let ghost d0 = self.position as int;
        while self.at_digit()
            invariant
                self.wf(),
                self.source@ == src,
                0 <= start0 <= d0 <= self.position as int <= src.len(),
                forall|k: int| d0 <= k < self.position as int ==> decimal_digit(src[k]),
                raw@ == src.subrange(start0, self.position as int),
            decreases src.len() - self.position as int,
        {
            let c = self.current_char.unwrap();
            push_char(&mut raw, c);
            proof {
                assert(raw@ =~= src.subrange(start0, self.position as int + 1));
            }
            self.advance();
        }
        proof {
            lemma_digits_end_stops(src, d0, self.position as int);
        }
        if self.at_char('.') {
            let c = self.current_char.unwrap();
            push_char(&mut raw, c);
            proof {
                assert(raw@ =~= src.subrange(start0, self.position as int + 1));
            }
            self.advance();
            let ghost f0 = self.position as int;
            while self.at_digit()
                invariant
                    self.wf(),
                    self.source@ == src,
                    0 <= start0 <= f0 <= self.position as int <= src.len(),
                    forall|k: int| f0 <= k < self.position as int ==> decimal_digit(src[k]),
                    raw@ == src.subrange(start0, self.position as int),
                decreases src.len() - self.position as int,
            {
                let c2 = self.current_char.unwrap();
                push_char(&mut raw, c2);
                proof {
                    assert(raw@ =~= src.subrange(start0, self.position as int + 1));
                }
                self.advance();
            }
            proof {
                lemma_digits_end_stops(src, f0, self.position as int);
            }
            Token { token_type: TokenType::FloatLiteral, start, end: self.position, raw }
        } else {
            Token { token_type: TokenType::IntegerLiteral, start, end: self.position, raw }
        }
    }

    /// Produces the next token: skips whitespace, classifies by the current
    /// character, extracts the token, and leaves the cursor one past the
    /// token's text — for the multi-character scans one further character is
    /// consumed by the closing advance, which is what takes the closing
    /// quote of a string literal. At and past the end of input every call
    /// returns the end-of-input token with a zero-width span at the buffer
    /// length.
    pub fn next_token(&mut self) -> (t: Token)
        requires
            old(self).wf(),
            scan_ok(old(self).source@, old(self).position as int),
        ensures
            final(self).wf(),
            final(self).source@ == old(self).source@,
            t@ == token_at(old(self).source@, old(self).position as int),
            final(self).position == next_cursor(old(self).source@, old(self).position as int),
    {
        let ghost src = self.source@;
        let ghost p0 = self.position as int;
        while self.at_whitespace()
            invariant
                self.wf(),
                self.source@ == src,
                0 <= p0 <= self.position as int <= src.len(),
                forall|k: int| p0 <= k < self.position as int ==> whitespace_char(src[k]),
            decreases src.len() - self.position as int,
        {
            self.advance();
        }
        proof {
            lemma_skip_ws_stops(src, p0, self.position as int);
            lemma_token_at_bounds(src, p0);
            assert(self.source.len() == self.source@.len());
        }
        let start = self.position;
        let tok: Token = match self.current_char {
            None => Token {
                token_type: TokenType::EOF,
                start,
                end: start,
                raw: String::new(),
            },
            Some(c) => {
                if c == '(' {
                    Token {
                        token_type: TokenType::OpenParen,
                        start,
                        end: start + 1,
                        raw: char_string(c),
                    }
                } else if c == ')' {
                    Token {
                        token_type: TokenType::CloseParen,
                        start,
                        end: start + 1,
                        raw: char_string(c),
                    }
                } else if c == '{' {
                    Token {
                        token_type: TokenType::OpenBrace,
                        start,
                        end: start + 1,
                        raw: char_string(c),
                    }
                } else if c == '}' {
                    Token {
                        token_type: TokenType::CloseBrace,
                        start,
                        end: start + 1,
                        raw: char_string(c),
                    }
                } else if c == '[' {
                    Token {
                        token_type: TokenType::OpenSquare,
                        start,
                        end: start + 1,
                        raw: char_string(c),
                    }
                } else if c == ']' {
                    Token {
                        token_type: TokenType::CloseSquare,
                        start,
                        end: start + 1,
                        raw: char_string(c),
                    }
                } else if c == '?' {
                    Token {
                        token_type: TokenType::Optional,
                        start,
                        end: start + 1,
                        raw: char_string(c),
                    }
                } else if c == '!' {
                    Token {
                        token_type: TokenType::Final,
                        start,
                        end: start + 1,
                        raw: char_string(c),
                    }
                } else if char_is_alphabetic(c) {
                    self.read_identifier()
                } else if c == '@' {
                    let ahead_alphabetic = match self.peek() {
                        Some(a) => char_is_alphabetic(a),
                        None => false,
                    };
                    if ahead_alphabetic {
                        self.read_attribute()
                    } else {
                        proof {
                            assert(false);
                        }
                        vstd::pervasive::unreached()
                    }
                } else if c == '"' {
                    self.read_string()
                } else if char_is_decimal_digit(c) {
                    self.read_number()
                } else if c == '-' {
                    let ahead_digit = match self.peek() {
                        Some(a) => char_is_decimal_digit(a),
                        None => false,
                    };
                    if ahead_digit {
                        self.read_number()
                    } else {
                        proof {
                            assert(false);
                        }
                        vstd::pervasive::unreached()
                    }
                } else {
                    proof {
                        assert(false);
                    }
                    vstd::pervasive::unreached()
                }
            },
        };
        self.advance();
        tok
    }
}

/// The kind an alphanumeric word scans as: its keyword kind on an exact,
/// case-sensitive, whole-word match against one of the six keywords, else a
/// plain identifier.
fn keyword_lookup(raw: &String) -> (t: TokenType)
    ensures
        t == word_kind(raw@),
{
    if *raw == "plugin".to_owned() {
        TokenType::Plugin
    } else if *raw == "prop".to_owned() {
        TokenType::Prop
    } else if *raw == "enum".to_owned() {
        TokenType::Enum
    } else if *raw == "model".to_owned() {
        TokenType::Model
    } else if *raw == "type".to_owned() {
        TokenType::Type
    } else if *raw == "use".to_owned() {
        TokenType::Use
    } else {
        TokenType::Identifier
    }
}

} // verus!
