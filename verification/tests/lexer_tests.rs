use schema_lexer::lexer::Lexer;
use schema_lexer::token::{Token, TokenType};

#[test]
fn should_tokenize_symbols() {
    let input = "{} [] () ! ?";
    let mut lexer = Lexer::new(input);

    let expected_tokens = vec![
        Token { token_type: TokenType::OpenBrace, start: 0, end: 1, raw: "{".to_string() },
        Token { token_type: TokenType::CloseBrace, start: 1, end: 2, raw: "}".to_string() },
        Token { token_type: TokenType::OpenSquare, start: 3, end: 4, raw: "[".to_string() },
        Token { token_type: TokenType::CloseSquare, start: 4, end: 5, raw: "]".to_string() },
        Token { token_type: TokenType::OpenParen, start: 6, end: 7, raw: "(".to_string() },
        Token { token_type: TokenType::CloseParen, start: 7, end: 8, raw: ")".to_string() },
        Token { token_type: TokenType::Final, start: 9, end: 10, raw: "!".to_string() },
        Token { token_type: TokenType::Optional, start: 11, end: 12, raw: "?".to_string() },
        Token { token_type: TokenType::EOF, start: 12, end: 12, raw: "".to_string() },
    ];

    for expected_token in expected_tokens {
        let token = lexer.next_token();
        assert_eq!(token.token_type, expected_token.token_type);
        assert_eq!(token.start, expected_token.start);
        assert_eq!(token.end, expected_token.end);
        assert_eq!(token.raw, expected_token.raw);
    }
}

#[test]
fn should_tokenize_empty_input() {
    let mut lexer = Lexer::new("");
    let token = lexer.next_token();

    assert_eq!(token.token_type, TokenType::EOF);
}

#[test]
fn should_tokenize_lower_identifier() {
    let mut lexer = Lexer::new("somevariable");
    let token = lexer.next_token();

    assert_eq!(token.token_type, TokenType::Identifier);
    assert_eq!(token.raw, "somevariable");
}

#[test]
fn should_tokenize_camel_case_identifier() {
    let mut lexer = Lexer::new("someVariable");
    let token = lexer.next_token();

    assert_eq!(token.token_type, TokenType::Identifier);
    assert_eq!(token.raw, "someVariable");
}

#[test]
fn should_tokenize_pascal_case_identifier() {
    let mut lexer = Lexer::new("SomeVariable");
    let token = lexer.next_token();

    assert_eq!(token.token_type, TokenType::Identifier);
    assert_eq!(token.raw, "SomeVariable");
}

#[test]
fn should_tokenize_uppercase_identifier() {
    let mut lexer = Lexer::new("SOMEVARIABLE");
    let token = lexer.next_token();

    assert_eq!(token.token_type, TokenType::Identifier);
    assert_eq!(token.raw, "SOMEVARIABLE");
}

#[test]
fn should_tokenize_attribute() {
    let mut lexer = Lexer::new("@field.text");
    let token = lexer.next_token();

    assert_eq!(token.token_type, TokenType::AttributeIdentifier);
    assert_eq!(token.raw, "field.text");
}

#[test]
fn should_tokenize_string_literals() {
    let mut lexer = Lexer::new("\"Hello\"");
    let token = lexer.next_token();

    assert_eq!(token.token_type, TokenType::StringLiteral);
    assert_eq!(token.raw, "Hello");
}

#[test]
fn should_tokenize_integers() {
    let mut lexer = Lexer::new("12345");
    let token = lexer.next_token();

    assert_eq!(token.token_type, TokenType::IntegerLiteral);
    assert_eq!(token.raw, "12345");
}

#[test]
fn should_tokenize_negative_integers() {
    let mut lexer = Lexer::new("-12345");
    let token = lexer.next_token();

    assert_eq!(token.token_type, TokenType::IntegerLiteral);
    assert_eq!(token.raw, "-12345");
}

#[test]
fn should_tokenize_floats() {
    let mut lexer = Lexer::new("123.45");
    let token = lexer.next_token();

    assert_eq!(token.token_type, TokenType::FloatLiteral);
    assert_eq!(token.raw, "123.45");
}

#[test]
fn should_tokenize_negative_floats() {
    let mut lexer = Lexer::new("-123.45");
    let token = lexer.next_token();

    assert_eq!(token.token_type, TokenType::FloatLiteral);
    assert_eq!(token.raw, "-123.45");
}

#[test]
fn should_tokenize_plugin() {
    let mut lexer = Lexer::new("plugin");
    let token = lexer.next_token();

    assert_eq!(token.token_type, TokenType::Plugin);
    assert_eq!(token.raw, "plugin");
}

#[test]
fn should_tokenize_prop() {
    let mut lexer = Lexer::new("prop");
    let token = lexer.next_token();

    assert_eq!(token.token_type, TokenType::Prop);
    assert_eq!(token.raw, "prop");
}

#[test]
fn should_tokenize_use() {
    let mut lexer = Lexer::new("use");
    let token = lexer.next_token();

    assert_eq!(token.token_type, TokenType::Use);
    assert_eq!(token.raw, "use");
}

#[test]
fn should_tokenize_type() {
    let mut lexer = Lexer::new("type");
    let token = lexer.next_token();

    assert_eq!(token.token_type, TokenType::Type);
    assert_eq!(token.raw, "type");
}

#[test]
fn should_tokenize_model() {
    let mut lexer = Lexer::new("model");
    let token = lexer.next_token();

    assert_eq!(token.token_type, TokenType::Model);
    assert_eq!(token.raw, "model");
}

#[test]
fn should_tokenize_enum() {
    let mut lexer = Lexer::new("enum");
    let token = lexer.next_token();

    assert_eq!(token.token_type, TokenType::Enum);
    assert_eq!(token.raw, "enum");
}

#[test]
fn empty_input_eof_has_zero_width_span_and_repeats() {
    let mut lexer = Lexer::new("");
    let first = lexer.next_token();
    assert_eq!(first.token_type, TokenType::EOF);
    assert_eq!(first.start, 0);
    assert_eq!(first.end, 0);
    assert_eq!(first.raw, "");

    let second = lexer.next_token();
    assert_eq!(second.token_type, TokenType::EOF);
    assert_eq!(second.start, 0);
    assert_eq!(second.end, 0);

    let third = lexer.next_token();
    assert_eq!(third.token_type, TokenType::EOF);
}

#[test]
fn eof_after_word_sits_at_buffer_length() {
    let mut lexer = Lexer::new("word");
    let word = lexer.next_token();
    assert_eq!(word.token_type, TokenType::Identifier);
    assert_eq!(word.start, 0);
    assert_eq!(word.end, 4);

    let eof = lexer.next_token();
    assert_eq!(eof.token_type, TokenType::EOF);
    assert_eq!(eof.start, 4);
    assert_eq!(eof.end, 4);

    let again = lexer.next_token();
    assert_eq!(again.token_type, TokenType::EOF);
    assert_eq!(again.start, 4);
    assert_eq!(again.end, 4);
}

#[test]
fn identifier_longer_than_keyword_is_no_keyword() {
    let mut lexer = Lexer::new("plugins");
    let token = lexer.next_token();

    assert_eq!(token.token_type, TokenType::Identifier);
    assert_eq!(token.raw, "plugins");
    assert_eq!(token.start, 0);
    assert_eq!(token.end, 7);
}

#[test]
fn keyword_with_capital_is_plain_identifier() {
    let mut lexer = Lexer::new("Model");
    let token = lexer.next_token();

    assert_eq!(token.token_type, TokenType::Identifier);
    assert_eq!(token.raw, "Model");
}

#[test]
fn attribute_span_includes_the_sigil() {
    let mut lexer = Lexer::new("@field.text");
    let token = lexer.next_token();

    assert_eq!(token.token_type, TokenType::AttributeIdentifier);
    assert_eq!(token.start, 0);
    assert_eq!(token.end, 11);
    assert_eq!(token.raw, "field.text");
}

#[test]
fn string_literal_span_excludes_only_the_quotes() {
    let mut lexer = Lexer::new("\"Hello\" x");
    let hello = lexer.next_token();
    assert_eq!(hello.token_type, TokenType::StringLiteral);
    assert_eq!(hello.start, 0);
    assert_eq!(hello.end, 6);
    assert_eq!(hello.raw, "Hello");

    let x = lexer.next_token();
    assert_eq!(x.token_type, TokenType::Identifier);
    assert_eq!(x.raw, "x");
    assert_eq!(x.start, 8);
    assert_eq!(x.end, 9);
}

#[test]
fn unterminated_string_stops_at_end_of_input() {
    let mut lexer = Lexer::new("\"abc");
    let token = lexer.next_token();

    assert_eq!(token.token_type, TokenType::StringLiteral);
    assert_eq!(token.raw, "abc");
    assert_eq!(token.start, 0);
    assert_eq!(token.end, 4);

    let eof = lexer.next_token();
    assert_eq!(eof.token_type, TokenType::EOF);
    assert_eq!(eof.start, 4);
    assert_eq!(eof.end, 4);
}

#[test]
fn empty_string_literal_has_empty_raw_text() {
    let mut lexer = Lexer::new("\"\"");
    let token = lexer.next_token();

    assert_eq!(token.token_type, TokenType::StringLiteral);
    assert_eq!(token.raw, "");
    assert_eq!(token.start, 0);
    assert_eq!(token.end, 1);
}

#[test]
fn float_with_empty_fraction_is_still_a_float() {
    let mut lexer = Lexer::new("123.");
    let token = lexer.next_token();

    assert_eq!(token.token_type, TokenType::FloatLiteral);
    assert_eq!(token.raw, "123.");
    assert_eq!(token.start, 0);
    assert_eq!(token.end, 4);
}

#[test]
fn integer_span_matches_its_digits() {
    let mut lexer = Lexer::new("12345");
    let token = lexer.next_token();

    assert_eq!(token.start, 0);
    assert_eq!(token.end, 5);
}

#[test]
fn whitespace_of_all_sorts_is_skipped() {
    let mut lexer = Lexer::new("\t\n  ?");
    let token = lexer.next_token();

    assert_eq!(token.token_type, TokenType::Optional);
    assert_eq!(token.start, 4);
    assert_eq!(token.end, 5);
}

#[test]
fn declaration_line_tokenizes_in_source_order() {
    let mut lexer = Lexer::new("model User {}");

    let model = lexer.next_token();
    assert_eq!(model.token_type, TokenType::Model);
    assert_eq!(model.raw, "model");
    assert_eq!(model.start, 0);
    assert_eq!(model.end, 5);

    let user = lexer.next_token();
    assert_eq!(user.token_type, TokenType::Identifier);
    assert_eq!(user.raw, "User");
    assert_eq!(user.start, 6);
    assert_eq!(user.end, 10);

    let open = lexer.next_token();
    assert_eq!(open.token_type, TokenType::OpenBrace);
    assert_eq!(open.start, 11);
    assert_eq!(open.end, 12);

    let close = lexer.next_token();
    assert_eq!(close.token_type, TokenType::CloseBrace);
    assert_eq!(close.start, 12);
    assert_eq!(close.end, 13);

    let eof = lexer.next_token();
    assert_eq!(eof.token_type, TokenType::EOF);
    assert_eq!(eof.start, 13);
    assert_eq!(eof.end, 13);
}

#[test]
fn rescanning_the_same_input_yields_the_same_tokens() {
    let input = "prop name \"value\" 42";
    let mut first = Lexer::new(input);
    let mut second = Lexer::new(input);

    loop {
        let a = first.next_token();
        let b = second.next_token();
        assert_eq!(a.token_type, b.token_type);
        assert_eq!(a.start, b.start);
        assert_eq!(a.end, b.end);
        assert_eq!(a.raw, b.raw);
        if a.token_type == TokenType::EOF {
            break;
        }
    }
}
