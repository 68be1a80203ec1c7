//! Laws of the scanner as a whole, stated over the token stream a source
//! denotes.

use vstd::prelude::*;

use crate::chars::{alphabetic_char, alphanumeric_char, whitespace_char};
use crate::scan::{
    eof_token, lemma_alnum_end_stops, lemma_skip_ws, lemma_skip_ws_stops, lemma_token_at_bounds,
    next_cursor, scan_ok, skip_ws, symbol_char, symbol_kind, token_at, token_start_ok,
    token_stream,
};
use crate::token::{SpecToken, TokenType};

verus! {

/// Scanning is deterministic: the scanner's construction fixes its state as
/// a function of the input text, and each step's token and new cursor are
/// functions of the text and the cursor before the step, so re-running a
/// fresh scanner over the same input yields the identical token sequence.
pub proof fn lemma_scan_deterministic(first: Seq<char>, second: Seq<char>)
    requires
        first == second,
    ensures
        token_stream(first, 0) == token_stream(second, 0),
{
}

/// Once the cursor stands at the end of the source — immediately, on empty
/// input — every further call finds a rule, yields the end-of-input token
/// with a zero-width span at the buffer length, and leaves the cursor
/// where it was.
pub proof fn lemma_end_of_input_stable(src: Seq<char>)
    ensures
        scan_ok(src, src.len() as int),
        token_at(src, src.len() as int) == eof_token(src),
        next_cursor(src, src.len() as int) == src.len(),
{
}

/// Each call of the scanner takes one step along the token stream: from a
/// state where a rule matches, the stream is the token that call returns
/// followed by the stream from the cursor the call leaves, and the stream
/// closes once the cursor reaches the end of the source.
pub proof fn lemma_token_stream_step(src: Seq<char>, i: int)
    requires
        0 <= i <= src.len(),
        scan_ok(src, i),
    ensures
        token_stream(src, i).len() >= 1,
        token_stream(src, i)[0] == token_at(src, i),
        skip_ws(src, i) < src.len() ==> token_stream(src, i) == seq![token_at(src, i)]
            + token_stream(src, next_cursor(src, i)),
        skip_ws(src, i) == src.len() ==> token_stream(src, i) == seq![eof_token(src)],
{
    lemma_skip_ws(src, i);
    lemma_token_at_bounds(src, i);
    if skip_ws(src, i) < src.len() {
        assert(token_stream(src, i) == seq![token_at(src, i)] + token_stream(
            src,
            next_cursor(src, i),
        ));
    }
}

/// An alphanumeric word that starts alphabetic and spells none of the six
/// keywords scans alone as a single identifier token whose raw text is the
/// word itself and whose span is the whole input, followed by end-of-input.
pub proof fn lemma_word_scans_to_one_identifier(src: Seq<char>)
    requires
        src.len() > 0,
        alphabetic_char(src[0]),
        forall|k: int| 0 <= k < src.len() ==> alphanumeric_char(src[k]),
        src != "plugin"@,
        src != "prop"@,
        src != "enum"@,
        src != "model"@,
        src != "type"@,
        src != "use"@,
    ensures
        token_stream(src, 0).len() == 2,
        token_stream(src, 0)[0].kind == TokenType::Identifier,
        token_stream(src, 0)[0].start == 0,
        token_stream(src, 0)[0].end == src.len(),
        token_stream(src, 0)[0].text == src,
        token_stream(src, 0)[1] == eof_token(src),
{
    lemma_skip_ws_stops(src, 0, 0);
    lemma_alnum_end_stops(src, 0, src.len() as int);
    assert(src.subrange(0, src.len() as int) =~= src);
    lemma_skip_ws_stops(src, src.len() as int, src.len() as int);
    assert(token_stream(src, src.len() as int) =~= seq![eof_token(src)]);
    assert(token_stream(src, 0) =~= seq![token_at(src, 0)] + token_stream(
        src,
        src.len() as int,
    ));
}

/// What each token of a symbols-only input looks like: one character wide,
/// at a symbol position at or after `p`, with that symbol's kind, and with
/// that one symbol character as its raw text.
pub open spec fn symbol_token_shape(src: Seq<char>, p: int, t: SpecToken) -> bool {
    &&& p <= t.start < src.len()
    &&& t.end == t.start + 1
    &&& symbol_char(src[t.start])
    &&& t.kind == symbol_kind(src[t.start])
    &&& t.text == seq![src[t.start]]
}

/// What the whole token stream of a symbols-only input looks like, scanned
/// from position `p`: it closes with the end-of-input token; every earlier
/// token is a one-character symbol token at a symbol position at or after
/// `p`, with that symbol's kind and raw text; consecutive spans do not
/// overlap; and every symbol position at or after `p` is the start of some
/// token.
pub open spec fn symbols_stream_ok(src: Seq<char>, p: int, ts: Seq<SpecToken>) -> bool {
    &&& ts.len() >= 1
    &&& ts.last() == eof_token(src)
    &&& (forall|n: int| #![trigger ts[n]] 0 <= n < ts.len() - 1 ==> symbol_token_shape(src, p, ts[n]))
    &&& (forall|n: int|
        #![trigger ts[n]]
        0 <= n < ts.len() - 2 ==> ts[n].end <= ts[n + 1].start)
    &&& (forall|k: int|
        #![trigger symbol_char(src[k])]
        p <= k < src.len() && symbol_char(src[k]) ==> exists|n: int|
            0 <= n < ts.len() - 1 && ts[n].start == k)
}

/// A stream of just the end-of-input token is a symbols-only stream when
/// only whitespace stands at or after `p`.
proof fn lemma_symbols_eof_case(src: Seq<char>, p: int)
    requires
        0 <= p <= src.len(),
        forall|k: int| p <= k < src.len() ==> whitespace_char(src[k]),
    ensures
        symbols_stream_ok(src, p, seq![eof_token(src)]),
{
    let ts = seq![eof_token(src)];
    assert forall|k: int| p <= k < src.len() && symbol_char(src[k]) implies exists|n: int|
        0 <= n < ts.len() - 1 && ts[n].start == k by {
        assert(whitespace_char(src[k]));
        assert(false);
    }
}

/// Prepending one symbol token keeps every non-closing token of the stream
/// in symbol shape.
proof fn lemma_shape_prepend(
    src: Seq<char>,
    p: int,
    q: int,
    tok: SpecToken,
    rest: Seq<SpecToken>,
)
    requires
        p <= q,
        symbol_token_shape(src, p, tok),
        forall|n: int|
            #![trigger rest[n]]
            0 <= n < rest.len() - 1 ==> symbol_token_shape(src, q, rest[n]),
    ensures
        forall|n: int|
            #![trigger (seq![tok] + rest)[n]]
            0 <= n < (seq![tok] + rest).len() - 1 ==> symbol_token_shape(
                src,
                p,
                (seq![tok] + rest)[n],
            ),
{
    let ts = seq![tok] + rest;
    assert forall|n: int| #![trigger ts[n]] 0 <= n < ts.len() - 1 implies symbol_token_shape(
        src,
        p,
        ts[n],
    ) by {
        if n > 0 {
            assert(ts[n] == rest[n - 1]);
            assert(symbol_token_shape(src, q, rest[n - 1]));
        }
    }
}

/// Prepending one symbol token that ends at or before every later token's
/// position keeps consecutive spans non-overlapping.
proof fn lemma_order_prepend(
    src: Seq<char>,
    q: int,
    tok: SpecToken,
    rest: Seq<SpecToken>,
)
    requires
        tok.end <= q,
        forall|n: int|
            #![trigger rest[n]]
            0 <= n < rest.len() - 1 ==> symbol_token_shape(src, q, rest[n]),
        forall|n: int|
            #![trigger rest[n]]
            0 <= n < rest.len() - 2 ==> rest[n].end <= rest[n + 1].start,
    ensures
        forall|n: int|
            #![trigger (seq![tok] + rest)[n]]
            0 <= n < (seq![tok] + rest).len() - 2 ==> (seq![tok] + rest)[n].end <= (seq![tok]
                + rest)[n + 1].start,
{
    let ts = seq![tok] + rest;
    assert forall|n: int| #![trigger ts[n]] 0 <= n < ts.len() - 2 implies ts[n].end <= ts[n
        + 1].start by {
        if n == 0 {
            assert(ts[1] == rest[0]);
            assert(symbol_token_shape(src, q, rest[0]));
        } else {
            assert(ts[n] == rest[n - 1]);
            assert(ts[n + 1] == rest[n]);
        }
    }
}

/// Prepending the symbol token of position `j` extends coverage: every
/// symbol position from `p` on starts some non-closing token.
proof fn lemma_cover_prepend(
    src: Seq<char>,
    p: int,
    j: int,
    tok: SpecToken,
    rest: Seq<SpecToken>,
)
    requires
        0 <= p <= j < src.len(),
        tok.start == j,
        rest.len() >= 1,
        forall|k: int| p <= k < j ==> whitespace_char(src[k]),
        forall|k: int|
            #![trigger symbol_char(src[k])]
            j + 1 <= k < src.len() && symbol_char(src[k]) ==> exists|n: int|
                0 <= n < rest.len() - 1 && rest[n].start == k,
    ensures
        forall|k: int|
            #![trigger symbol_char(src[k])]
            p <= k < src.len() && symbol_char(src[k]) ==> exists|n: int|
                0 <= n < (seq![tok] + rest).len() - 1 && (seq![tok] + rest)[n].start == k,
{
    let ts = seq![tok] + rest;
    assert forall|k: int| p <= k < src.len() && symbol_char(src[k]) implies exists|n: int|
        0 <= n < ts.len() - 1 && ts[n].start == k by {
        if k < j {
            assert(whitespace_char(src[k]));
            assert(false);
        } else if k == j {
            assert(ts[0].start == k);
        } else {
            let n0 = choose|n: int| 0 <= n < rest.len() - 1 && rest[n].start == k;
            assert(ts[n0 + 1] == rest[n0]);
            assert(0 <= n0 + 1 < ts.len() - 1 && ts[n0 + 1].start == k);
        }
    }
}

/// Prepending the one-character symbol token of the first symbol position
/// to a symbols-only stream of the positions after it gives a symbols-only
/// stream of all positions from `p` on.
#[verifier::rlimit(100)]
proof fn lemma_symbols_prepend(
    src: Seq<char>,
    p: int,
    j: int,
    tok: SpecToken,
    rest: Seq<SpecToken>,
)
    requires
        0 <= p <= j < src.len(),
        symbol_token_shape(src, p, tok),
        tok.start == j,
        tok.end == j + 1,
        forall|k: int| p <= k < j ==> whitespace_char(src[k]),
        symbols_stream_ok(src, j + 1, rest),
    ensures
        symbols_stream_ok(src, p, seq![tok] + rest),
{
    let ts = seq![tok] + rest;
    assert(ts[ts.len() - 1] == rest[rest.len() - 1]);
    lemma_shape_prepend(src, p, j + 1, tok, rest);
    lemma_order_prepend(src, j + 1, tok, rest);
    lemma_cover_prepend(src, p, j, tok, rest);
}

/// One scanning step of a symbols-only input: at a symbol character the
/// scan yields that symbol's one-character token and moves to the next
/// position, and the stream is that token followed by the rest.
proof fn lemma_symbol_step(src: Seq<char>, p: int)
    requires
        0 <= p <= src.len(),
        skip_ws(src, p) < src.len(),
        symbol_char(src[skip_ws(src, p)]),
    ensures
        token_at(src, p).start == skip_ws(src, p),
        token_at(src, p).end == skip_ws(src, p) + 1,
        token_at(src, p).kind == symbol_kind(src[skip_ws(src, p)]),
        token_at(src, p).text == seq![src[skip_ws(src, p)]],
        next_cursor(src, p) == skip_ws(src, p) + 1,
        token_stream(src, p) == seq![token_at(src, p)] + token_stream(src, skip_ws(src, p) + 1),
{
    lemma_skip_ws(src, p);
    assert(token_start_ok(src, skip_ws(src, p)));
    assert(next_cursor(src, p) == skip_ws(src, p) + 1);
    assert(token_stream(src, p) == seq![token_at(src, p)] + token_stream(
        src,
        next_cursor(src, p),
    ));
}

/// The step case behind `lemma_symbols_scan_in_order`, scanning from any
/// position: tokens before the closing end-of-input token are exactly the
/// one-character symbol tokens of the symbol positions at or after `p`, in
/// increasing order of position.
#[verifier::rlimit(100)]
proof fn lemma_symbols_from(src: Seq<char>, p: int)
    requires
        0 <= p <= src.len(),
        forall|k: int| 0 <= k < src.len() ==> symbol_char(src[k]) || whitespace_char(src[k]),
    ensures
        symbols_stream_ok(src, p, token_stream(src, p)),
    decreases src.len() - p,
{
    lemma_skip_ws(src, p);
    let j = skip_ws(src, p);
    if j == src.len() {
        lemma_symbols_eof_case(src, p);
        assert(token_stream(src, p) == seq![eof_token(src)]);
    } else {
        assert(symbol_char(src[j]));
        lemma_symbol_step(src, p);
        lemma_symbols_from(src, j + 1);
        lemma_symbols_prepend(src, p, j, token_at(src, p), token_stream(src, j + 1));
    }
}

/// An input made only of the fixed symbols and whitespace scans to exactly
/// its symbols, in source order: every token before the closing end-of-input
/// token is a one-character symbol token whose kind and raw text are those
/// of the symbol at its start offset, consecutive spans do not overlap, and
/// every symbol offset of the source is the start of some token.
pub proof fn lemma_symbols_scan_in_order(src: Seq<char>)
    requires
        forall|k: int| 0 <= k < src.len() ==> symbol_char(src[k]) || whitespace_char(src[k]),
    ensures
        symbols_stream_ok(src, 0, token_stream(src, 0)),
{
    lemma_symbols_from(src, 0);
}

} // verus!
