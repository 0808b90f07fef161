use type_lib::tokenizer::{Span, Token, TokenKind, Tokenizer};

#[test]
fn test_tokenize_empty_type() {
    let source = "Example {}";

    let mut lexer = Tokenizer::new(source);
    let tokens: Vec<_> = lexer.collect();

    assert_eq!(
        tokens,
        vec![
            TokenKind::TypeIdent.at(0..=6, "Example"),
            TokenKind::BraceOpen.at(8, "{"),
            TokenKind::BraceClose.at(9, "}")
        ]
    );
}

#[test]
fn test_tokenize_list() {
    let source = "[Object]";

    let mut lexer = Tokenizer::new(source);
    let tokens: Vec<_> = lexer.collect();

    assert_eq!(
        tokens,
        vec![
            TokenKind::BracketOpen.at(0, "["),
            TokenKind::TypeIdent.at(1..=6, "Object"),
            TokenKind::BracketClose.at(7, "]")
        ]
    )
}

#[test]
fn test_multiple_idents() {
    let source = "Object ident otherName identWithNumber123 Type123";

    let mut lexer = Tokenizer::new(source);
    let tokens: Vec<_> = lexer.collect();

    assert_eq!(
        tokens,
        vec![
            TokenKind::TypeIdent.at(0..6, "Object"),
            TokenKind::Ident.at(7..12, "ident"),
            TokenKind::Ident.at(13..22, "otherName"),
            TokenKind::Ident.at(23..41, "identWithNumber123"),
            TokenKind::TypeIdent.at(42..49, "Type123")
        ]
    );
}

#[test]
fn test_empty_string() {
    let source = "";

    let mut lexer = Tokenizer::new(source);
    let tokens: Vec<_> = lexer.collect();

    assert_eq!(tokens, vec![]);
}

#[test]
fn test_space_string() {
    let source = "          ";

    let mut lexer = Tokenizer::new(source);
    let tokens: Vec<_> = lexer.collect();

    assert_eq!(tokens, vec![]);
}

#[test]
fn test_unknown_token() {
    let source = "ident $Type";

    let mut lexer = Tokenizer::new(source);
    let tokens: Vec<_> = lexer.collect();

    assert_eq!(tokens[0].kind, TokenKind::Ident);
    assert_eq!(tokens[1].kind, TokenKind::Invalid);
    assert_eq!(tokens[2].kind, TokenKind::TypeIdent);
}

#[test]
fn test_convert_type_keyword() {
    let token = TokenKind::Ident.at(0, "type");
    assert_eq!(token.clone().into_keyword().kind, TokenKind::TypeKeyword);
    assert_ne!(token.into_keyword().kind, TokenKind::Ident);
}

#[test]
fn test_convert_type_keyword_no_match() {
    let token = TokenKind::Ident.at(0, "noKeyword");
    assert_eq!(token.clone().into_keyword().kind, TokenKind::Ident);
    assert_ne!(token.into_keyword().kind, TokenKind::TypeKeyword);
}

#[test]
fn keyword_needs_the_exact_text() {
    assert_eq!(TokenKind::Ident.at(0, "types").into_keyword().kind, TokenKind::Ident);
    assert_eq!(TokenKind::Ident.at(0, "typ").into_keyword().kind, TokenKind::Ident);
    assert_eq!(TokenKind::Ident.at(0, "Type").into_keyword().kind, TokenKind::Ident);
    assert_eq!(TokenKind::Ident.at(0, " type").into_keyword().kind, TokenKind::Ident);
    assert_eq!(TokenKind::TypeIdent.at(0, "type").into_keyword().kind, TokenKind::TypeIdent);
    let lifted = TokenKind::Ident.at(3..7, "type").into_keyword();
    assert_eq!(lifted.kind, TokenKind::TypeKeyword);
    assert_eq!(lifted.span, Span { start: 3, end: Some(6) });
    assert_eq!(lifted.str, "type");
}

#[test]
fn spans_from_ranges() {
    assert_eq!(Span::from(0..7), Span { start: 0, end: Some(6) });
    assert_eq!(Span::from(0..=6), Span { start: 0, end: Some(6) });
    assert_eq!(Span::from(8), Span { start: 8, end: Some(8) });
    assert_eq!(Span::from(5..5), Span { start: 5, end: None });
    assert_eq!(Span::from(0..0), Span { start: 0, end: None });
    assert_eq!(Span::from(9..=3), Span { start: 9, end: None });
    assert_eq!(Span::from(usize::MAX), Span { start: usize::MAX, end: Some(usize::MAX) });
}

#[test]
fn every_punctuation_has_its_kind() {
    let mut lexer = Tokenizer::new("[]{}()?,:\n");
    let kinds: Vec<TokenKind> = lexer.collect().into_iter().map(|token| token.kind).collect();
    assert_eq!(
        kinds,
        vec![
            TokenKind::BracketOpen,
            TokenKind::BracketClose,
            TokenKind::BraceOpen,
            TokenKind::BraceClose,
            TokenKind::ParenOpen,
            TokenKind::ParenClose,
            TokenKind::QuestionMark,
            TokenKind::Comma,
            TokenKind::Colon,
            TokenKind::Newline,
        ]
    );
}

#[test]
fn newline_is_a_token_and_other_white_space_is_not() {
    let mut lexer = Tokenizer::new(" \t\r\x0b\x0ca \n b");
    let tokens = lexer.collect();
    assert_eq!(
        tokens,
        vec![
            TokenKind::Ident.at(5, "a"),
            TokenKind::Newline.at(7, "\n"),
            TokenKind::Ident.at(9, "b"),
        ]
    );
}

#[test]
fn identifiers_take_digits_and_underscores_but_do_not_start_with_them() {
    let mut lexer = Tokenizer::new("a_b1 _x 9z Z_9");
    let tokens = lexer.collect();
    assert_eq!(
        tokens,
        vec![
            TokenKind::Ident.at(0..4, "a_b1"),
            TokenKind::Invalid.at(5, "_"),
            TokenKind::Ident.at(6, "x"),
            TokenKind::Invalid.at(8, "9"),
            TokenKind::Ident.at(9, "z"),
            TokenKind::TypeIdent.at(11..14, "Z_9"),
        ]
    );
}

#[test]
fn type_is_a_plain_identifier_to_the_tokenizer() {
    let mut lexer = Tokenizer::new("type");
    let token = lexer.next();
    assert_eq!(token, TokenKind::Ident.at(0..4, "type"));
}

#[test]
fn end_of_input_is_read_again_and_again() {
    let mut lexer = Tokenizer::new("a  ");
    assert_eq!(lexer.next().kind, TokenKind::Ident);
    for _ in 0..3 {
        assert_eq!(lexer.peek(), TokenKind::EOF);
        let token = lexer.next();
        assert_eq!(token.kind, TokenKind::EOF);
        assert_eq!(token.span, Span { start: 3, end: None });
        assert_eq!(token.str, "");
    }
    let mut empty = Tokenizer::new("");
    let token = empty.next();
    assert_eq!(token, Token { span: Span { start: 0, end: None }, kind: TokenKind::EOF, str: String::new() });
    assert_eq!(empty.next_skip_newline().kind, TokenKind::EOF);
}

#[test]
fn peek_leaves_the_cursor() {
    let mut lexer = Tokenizer::new("  { a");
    assert_eq!(lexer.peek(), TokenKind::BraceOpen);
    assert_eq!(lexer.peek(), TokenKind::BraceOpen);
    assert_eq!(lexer.next(), TokenKind::BraceOpen.at(2, "{"));
    assert_eq!(lexer.peek(), TokenKind::Ident);
}

#[test]
fn try_next_reads_only_what_matches() {
    let mut lexer = Tokenizer::new("? \n?");
    assert_eq!(lexer.try_next(TokenKind::Comma), None);
    assert_eq!(lexer.try_next(TokenKind::QuestionMark), Some(TokenKind::QuestionMark.at(0, "?")));
    assert_eq!(lexer.try_next(TokenKind::QuestionMark), None);
    assert_eq!(lexer.try_next(TokenKind::Newline), Some(TokenKind::Newline.at(2, "\n")));
    assert_eq!(lexer.try_next(TokenKind::QuestionMark), Some(TokenKind::QuestionMark.at(3, "?")));
    assert_eq!(lexer.try_next(TokenKind::QuestionMark), None);
    assert_eq!(lexer.try_next(TokenKind::EOF).map(|token| token.kind), Some(TokenKind::EOF));
}

#[test]
fn next_skip_newline_passes_over_runs_of_newlines() {
    let mut lexer = Tokenizer::new("\n \n\n  x\ny");
    assert_eq!(lexer.next_skip_newline(), TokenKind::Ident.at(6, "x"));
    assert_eq!(lexer.next(), TokenKind::Newline.at(7, "\n"));
    assert_eq!(lexer.next_skip_newline(), TokenKind::Ident.at(8, "y"));
    assert_eq!(lexer.next_skip_newline().kind, TokenKind::EOF);
}

#[test]
fn expect_lifts_the_keyword_only_where_it_is_asked_for() {
    let mut lexer = Tokenizer::new("type type type Name\n\n{ x");
    assert_eq!(lexer.expect(TokenKind::TypeKeyword), Ok(TokenKind::TypeKeyword.at(0..4, "type")));
    assert_eq!(lexer.expect(TokenKind::Ident), Ok(TokenKind::Ident.at(5..9, "type")));
    assert_eq!(lexer.expect(TokenKind::TypeIdent), Err(TokenKind::TypeKeyword.at(10..14, "type")));
    assert_eq!(lexer.expect(TokenKind::TypeKeyword), Err(TokenKind::TypeIdent.at(15..19, "Name")));
    assert_eq!(lexer.expect(TokenKind::BraceOpen), Ok(TokenKind::BraceOpen.at(21, "{")));
    assert_eq!(lexer.expect(TokenKind::TypeKeyword), Err(TokenKind::Ident.at(23, "x")));
    assert_eq!(lexer.expect(TokenKind::Colon).map_err(|token| token.kind), Err(TokenKind::EOF));
}

#[test]
fn delimiters_are_comma_and_newline() {
    assert!(TokenKind::Comma.is_delim());
    assert!(TokenKind::Newline.is_delim());
    assert!(!TokenKind::Colon.is_delim());
    assert!(!TokenKind::EOF.is_delim());
    assert!(!TokenKind::QuestionMark.is_delim());
}

fn kinds_and_texts(source: &str) -> Vec<(TokenKind, String)> {
    Tokenizer::new(source).collect().into_iter().map(|token| (token.kind, token.str)).collect()
}

#[test]
fn tokenizer_test_tokenize_list() {
    let source = "[Object]";

    assert_eq!(
        kinds_and_texts(source),
        vec![
            (TokenKind::BracketOpen, "[".to_owned()),
            (TokenKind::TypeIdent, "Object".to_owned()),
            (TokenKind::BracketClose, "]".to_owned()),
        ]
    )
}

#[test]
fn tokenizer_test_multiple_idents() {
    let source = "Object ident otherName identWithNumber123 Type123";

    assert_eq!(
        kinds_and_texts(source),
        vec![
            (TokenKind::TypeIdent, "Object".to_owned()),
            (TokenKind::Ident, "ident".to_owned()),
            (TokenKind::Ident, "otherName".to_owned()),
            (TokenKind::Ident, "identWithNumber123".to_owned()),
            (TokenKind::TypeIdent, "Type123".to_owned()),
        ]
    );
}

#[test]
fn tokenizer_test_empty_string() {
    let source = "";

    assert_eq!(kinds_and_texts(source), vec![]);
}

#[test]
fn tokenizer_test_space_string() {
    let source = "          ";

    assert_eq!(kinds_and_texts(source), vec![]);
}

#[test]
fn tokenizer_test_convert_type_keyword() {
    let token = TokenKind::Ident.at(0..4, "type");
    assert_eq!(token.clone().into_keyword().kind, TokenKind::TypeKeyword);
    assert_ne!(token.clone().into_keyword(), TokenKind::Ident.at(0..4, "type"));
    assert_eq!(token, TokenKind::Ident.at(0..4, "type"));
}

#[test]
fn tokenizer_test_convert_type_keyword_no_match() {
    let token = TokenKind::Ident.at(0..9, "noKeyword");
    assert_eq!(token.clone().into_keyword(), TokenKind::Ident.at(0..9, "noKeyword"));
    assert_ne!(token.into_keyword().kind, TokenKind::TypeKeyword);
}
