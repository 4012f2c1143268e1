use disguise::span::Location;
use disguise::tokenizer::token::{Kind, Token};
use disguise::tokenizer::tokenizer::Tokenizer;

fn check_tokens(input: &[&str], expected: &[Kind]) {
    // Join the input strings to form a single string for tokenization.
    let tokenizer_input: String = input.join("");
    let tokenizer = Tokenizer::new(&tokenizer_input);
    let tokens: Vec<Token> = tokenizer.into_vec();
    assert_eq!(tokens.len(), expected.len());
    for (i, token) in tokens.iter().enumerate() {
        // kind.
        assert_eq!(token.kind(), expected[i]);

        // range.
        match token.kind() {
            Kind::EOF => {
                assert_eq!(tokenizer_input.len()..tokenizer_input.len(), token.range());
            }
            _ => {
                assert_eq!(input[i], &tokenizer_input[token.range()]);
            }
        }
    }
}

#[test]
fn tokenizer_eof() {
    check_tokens(&[""], &[Kind::EOF]);
}

#[test]
fn tokenizer_symbols() {
    check_tokens(
        &[
            "@", "=", "!", "-", "<", ">", "{", "}", "(", ")", "/", "*", ";", ",", ":", "\"", "'",
            "\r\n", "\n",
        ],
        &[
            Kind::AT,
            Kind::EQUALS,
            Kind::EXCLAMATION,
            Kind::HYPHEN,
            Kind::LESSTHAN,
            Kind::GREATTHAN,
            Kind::OCURLYBRACKET,
            Kind::CCURLYBRACKET,
            Kind::OPARENTHESIS,
            Kind::CPARENTHESIS,
            Kind::SLASH,
            Kind::ASTERISK,
            Kind::SEMICOLON,
            Kind::COMMA,
            Kind::COLON,
            Kind::DQMARK,
            Kind::SQMAERK,
            Kind::NEWLINE,
            Kind::NEWLINE,
            Kind::EOF,
        ],
    );
}

#[test]
fn tokenizer_exp() {
    check_tokens(&["abc"], &[Kind::EXPRESSION, Kind::EOF]);
}

#[test]
fn tokenizer_exp_with_symbol() {
    check_tokens(
        &["abc", ";", ","],
        &[Kind::EXPRESSION, Kind::SEMICOLON, Kind::COMMA, Kind::EOF],
    );
}

#[test]
fn tokenizer_unicode_stream() {
    check_tokens(
        &["你好", ";", "hello", ")", "世界"],
        &[
            Kind::EXPRESSION,
            Kind::SEMICOLON,
            Kind::EXPRESSION,
            Kind::CPARENTHESIS,
            Kind::EXPRESSION,
            Kind::EOF,
        ],
    );
}

#[test]
fn tokenizer_unicode_stream_and_lines() {
    check_tokens(
        &["你好", "\n", "hello", "*", "world", "\r", "世界", "\r\n"],
        &[
            Kind::EXPRESSION,
            Kind::NEWLINE,
            Kind::EXPRESSION,
            Kind::ASTERISK,
            Kind::EXPRESSION,
            Kind::NEWLINE,
            Kind::EXPRESSION,
            Kind::NEWLINE,
            Kind::EOF,
        ],
    );
}

#[test]
fn tokenizer_token_display() {
    let source = "\n123@*\n";
    let tokenizer = Tokenizer::new(source);
    let tokens: Vec<Token> = tokenizer.into_vec();
    let token = &tokens[1];
    let fmt_str = &token.to_string();
    assert_eq!(fmt_str, "Token(EXPRESSION, 1, 4)");
}

#[test]
fn tokenizer_stream_with_lines() {
    let token_parts = vec!["你好", "\n", "hello", "*", "world", "\r", "世界", "\r\n"];
    let tokenizer_input: String = token_parts.join("");
    let tokenizer = Tokenizer::new(&tokenizer_input);
    let tokens: Vec<Token> = tokenizer.into_vec();
    assert_eq!(tokens.len(), token_parts.len() + 1); // +1 for EOF token.

    let expected = [
        (Kind::EXPRESSION, Location::new(0, 0)),
        (Kind::NEWLINE, Location::new(0, 6)),
        (Kind::EXPRESSION, Location::new(1, 0)),
        (Kind::ASTERISK, Location::new(1, 5)),
        (Kind::EXPRESSION, Location::new(1, 6)),
        (Kind::NEWLINE, Location::new(1, 11)),
        (Kind::EXPRESSION, Location::new(2, 0)),
        (Kind::NEWLINE, Location::new(2, 6)),
    ];
    for (index, (kind, location)) in expected.iter().enumerate() {
        let token = &tokens[index];
        assert_eq!(token.kind(), *kind);
        assert_eq!(&tokenizer_input[token.range()], token_parts[index]);
        assert_eq!(token.location(), *location);
    }

    // ninth token (EOF).
    let token = &tokens[8];
    assert_eq!(token.kind(), Kind::EOF);
    assert_eq!(tokenizer_input.len()..tokenizer_input.len(), token.range());
    assert_eq!(token.location(), Location::new(3, 0));
}

#[test]
fn tokenizer_stream_with_bom() {
    let mut buffer = Vec::<u8>::new();
    buffer.extend_from_slice(&[0xEF, 0xBB, 0xBF]);
    buffer.extend_from_slice(b"123@*\n");
    let source = String::from_utf8(buffer).expect("Invalid UTF-8 sequence");
    let tokenizer = Tokenizer::new(&source);
    let tokens: Vec<Token> = tokenizer.into_vec();
    let token = &tokens[1];
    assert_eq!(token.kind(), Kind::AT);
    assert_eq!(token.location(), Location::new(0, 6));
}

#[test]
fn tokenizer_skips_byte_order_mark() {
    let source = "\u{feff}ab";
    let tokens = Tokenizer::new(source).into_vec();
    assert_eq!(tokens.len(), 2);
    assert_eq!(tokens[0].range(), 3..5);
    assert_eq!(&source[tokens[0].range()], "ab");
}

#[test]
fn tokenizer_tokens_cover_source() {
    let source = "a  b\t\tc@{x}\n\n<d e='1'>";
    let tokens = Tokenizer::new(source).into_vec();
    let mut joined = String::new();
    for (i, t) in tokens.iter().enumerate() {
        if i + 1 < tokens.len() {
            assert_eq!(t.range().end, tokens[i + 1].range().start);
            assert!(t.kind() != Kind::EOF);
        }
        joined.push_str(&source[t.range()]);
    }
    assert_eq!(joined, source);
    assert_eq!(tokens.last().unwrap().kind(), Kind::EOF);
}

#[test]
fn tokenizer_maximal_runs() {
    // a whitespace run takes tabs after a space; a tab alone starts an expression.
    let source = " \t \tx\ty\n\n";
    let tokens = Tokenizer::new(source).into_vec();
    let kinds: Vec<Kind> = tokens.iter().map(|t| t.kind()).collect();
    assert_eq!(kinds, vec![Kind::WHITESPACE, Kind::EXPRESSION, Kind::NEWLINE, Kind::EOF]);
    assert_eq!(&source[tokens[0].range()], " \t \t");
    assert_eq!(&source[tokens[1].range()], "x\ty");
    // an LF that follows a line break belongs to it.
    assert_eq!(&source[tokens[2].range()], "\n\n");
}
