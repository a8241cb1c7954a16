use qcl::lexer::Lexer;
use qcl::qcl_error::QclErrorType;
use qcl::span::Spanned;
use qcl::token::Token;

fn lex(source: &str) -> Vec<Spanned<Token>> {
    Lexer::new(source.to_string()).lex().unwrap()
}

fn kinds(tokens: &[Spanned<Token>]) -> Vec<Token> {
    tokens.iter().map(|t| t.item.copy()).collect()
}

fn spans(tokens: &[Spanned<Token>]) -> Vec<(usize, usize)> {
    tokens.iter().map(|t| (t.span.start, t.span.end)).collect()
}

#[test]
fn numeral_with_fraction_is_one_number_token() {
    let tokens = lex("12.5");
    assert_eq!(kinds(&tokens), vec![Token::Number("12.5".to_string()), Token::End]);
    assert_eq!(spans(&tokens), vec![(0, 3), (4, 4)]);
}

#[test]
fn integer_numeral_is_one_number_token() {
    let tokens = lex("7");
    assert_eq!(kinds(&tokens), vec![Token::Number("7".to_string()), Token::End]);
    assert_eq!(spans(&tokens), vec![(0, 0), (1, 1)]);
}

#[test]
fn long_numeral_is_one_number_token() {
    let tokens = lex("1234567890.0987654321");
    assert_eq!(
        kinds(&tokens),
        vec![Token::Number("1234567890.0987654321".to_string()), Token::End]
    );
    assert_eq!(spans(&tokens), vec![(0, 20), (21, 21)]);
}

#[test]
fn empty_source_is_only_end() {
    let tokens = lex("");
    assert_eq!(kinds(&tokens), vec![Token::End]);
    assert_eq!(spans(&tokens), vec![(0, 0)]);
}

#[test]
fn blanks_are_skipped_and_end_sits_at_the_last_offset() {
    let tokens = lex("  1 \r ");
    assert_eq!(kinds(&tokens), vec![Token::Number("1".to_string()), Token::End]);
    assert_eq!(spans(&tokens), vec![(2, 2), (6, 6)]);
}

#[test]
fn symbols_newlines_and_names() {
    let tokens = lex("print foo_bar\n+-*/(){}");
    assert_eq!(
        kinds(&tokens),
        vec![
            Token::Print,
            Token::Identifier("foo_bar".to_string()),
            Token::Newline,
            Token::Plus,
            Token::Minus,
            Token::Star,
            Token::Slash,
            Token::LeftParen,
            Token::RightParen,
            Token::LeftCurly,
            Token::RightCurly,
            Token::End,
        ]
    );
    assert_eq!(spans(&tokens)[1], (6, 12));
    assert_eq!(spans(&tokens)[2], (13, 13));
    assert_eq!(spans(&tokens)[11], (22, 22));
}

#[test]
fn print_prefix_is_an_identifier() {
    let tokens = lex("printer prin");
    assert_eq!(
        kinds(&tokens),
        vec![
            Token::Identifier("printer".to_string()),
            Token::Identifier("prin".to_string()),
            Token::End
        ]
    );
}

#[test]
fn trailing_dot_belongs_to_the_numeral() {
    let tokens = lex("3.");
    assert_eq!(kinds(&tokens), vec![Token::Number("3.".to_string()), Token::End]);
    assert_eq!(spans(&tokens), vec![(0, 1), (2, 2)]);
}

#[test]
fn second_dot_stops_the_numeral() {
    let error = Lexer::new("1.2.3".to_string()).lex().unwrap_err();
    assert_eq!(error.error_type, QclErrorType::SyntaxError);
    assert_eq!((error.span.start, error.span.end), (3, 3));
    assert_eq!(error.message, "Could not handle character: '.'");
}

#[test]
fn unknown_character_is_a_syntax_error() {
    let error = Lexer::new("1 + $".to_string()).lex().unwrap_err();
    assert_eq!(error.error_type, QclErrorType::SyntaxError);
    assert_eq!((error.span.start, error.span.end), (4, 4));
    assert_eq!(error.message, "Could not handle character: '$'");
}

#[test]
fn offsets_count_characters_not_bytes() {
    let tokens = lex("é + 1");
    assert_eq!(
        kinds(&tokens),
        vec![Token::Identifier("é".to_string()), Token::Plus, Token::Number("1".to_string()), Token::End]
    );
    assert_eq!(spans(&tokens), vec![(0, 0), (2, 2), (4, 4), (5, 5)]);
}

#[test]
fn next_token_and_peek_step_through_the_source() {
    let mut lexer = Lexer::new(" 42x".to_string());
    assert_eq!(lexer.peek(), Some(&' '));
    let first = lexer.next_token().unwrap();
    assert_eq!(first.item, Token::Number("42".to_string()));
    assert_eq!(lexer.peek(), Some(&'x'));
    let second = lexer.next_token().unwrap();
    assert_eq!(second.item, Token::Identifier("x".to_string()));
    assert_eq!(lexer.peek(), None);
    assert_eq!(lexer.next_token().unwrap().item, Token::End);
}

#[test]
fn next_number_and_next_name_read_from_the_position() {
    let mut lexer = Lexer::new("9.75 print".to_string());
    let number = lexer.next_number().unwrap();
    assert_eq!(number.item, Token::Number("9.75".to_string()));
    assert_eq!((number.span.start, number.span.end), (0, 3));
    lexer.advance();
    let name = lexer.next_name().unwrap();
    assert_eq!(name.item, Token::Print);
    assert_eq!((name.span.start, name.span.end), (5, 9));
}

#[test]
fn token_text_retokenizes_to_the_same_token() {
    let source = "print 12.5 + foo_bar\n(3.) * 7 / { }";
    let tokens = lex(source);
    let chars: Vec<char> = source.chars().collect();
    for token in tokens.iter().filter(|t| t.item != Token::End) {
        let piece: String = chars[token.span.start..=token.span.end].iter().collect();
        let again = lex(&piece);
        assert_eq!(again.len(), 2);
        assert_eq!(again[0].item, token.item);
        assert_eq!((again[0].span.start, again[0].span.end), (0, token.span.end - token.span.start));
        assert_eq!(again[1].item, Token::End);
    }
}

#[test]
fn tokens_are_described_for_readers() {
    assert_eq!(Token::End.describe(), "the end");
    assert_eq!(Token::Newline.describe(), "a newline");
    assert_eq!(Token::Print.describe(), "the print keyword");
    assert_eq!(Token::Number("1.5".to_string()).describe(), "the number 1.5");
    assert_eq!(Token::Identifier("x".to_string()).describe(), "the identifier x");
    assert_eq!(Token::LeftCurly.describe(), "{");
    assert_eq!(Token::Slash.describe(), "/");
}
