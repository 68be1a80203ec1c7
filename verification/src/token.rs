//! The token model: the closed set of token kinds and the token record.

use vstd::prelude::*;

verus! {

/// The closed set of token kinds produced by the scanner.
///
/// `BooleanLiteral` is reserved in the kind set; no scanning rule produces it
/// yet.
#[derive(Debug, Clone, Copy, PartialEq, Eq, Structural)]
pub enum TokenType {
    // Keywords
    Plugin,
    Prop,
    Use,
    Type,
    Model,
    Enum,
    // Identifiers
    Identifier,
    AttributeIdentifier,
    // Literals
    StringLiteral,
    IntegerLiteral,
    FloatLiteral,
    BooleanLiteral,
    // Symbols
    OpenParen,
    CloseParen,
    OpenBrace,
    CloseBrace,
    OpenSquare,
    CloseSquare,
    /// The `!` marker.
    Final,
    /// The `?` marker.
    Optional,
    EOF,
}

/// One token: its kind, its half-open span `[start, end)` in character
/// offsets into the source, and the raw text it was derived from.
///
/// For string literals `raw` excludes the surrounding quotes; for attribute
/// identifiers it excludes the leading `@`; for the end-of-input token it is
/// empty.
pub struct Token {
    pub token_type: TokenType,
    pub start: usize,
    pub end: usize,
    pub raw: String,
}

/// The mathematical image of a token: the same data over `int` offsets and a
/// character sequence, used by the scanner's contracts.
pub ghost struct SpecToken {
    pub kind: TokenType,
    pub start: int,
    pub end: int,
    pub text: Seq<char>,
}

impl View for Token {
    type V = SpecToken;

    /// The token record a `Token` stands for.
    open spec fn view(&self) -> SpecToken {
        SpecToken {
            kind: self.token_type,
            start: self.start as int,
            end: self.end as int,
            text: self.raw@,
        }
    }
}

} // verus!
