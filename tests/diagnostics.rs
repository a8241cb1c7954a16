use qcl::parser_error::ParserError;
use qcl::pipeline::plan;
use qcl::qcl_error::{QclError, QclErrorType};
use qcl::span::{Span, Spanned};
use qcl::syntax_error::SyntaxError;
use std::rc::Rc;

/// The rendered text with bright red escape codes taken out, if present.
fn plain(s: &str) -> String {
    s.replace("\u{1b}[91m", "").replace("\u{1b}[0m", "")
}

#[test]
fn span_renders_its_line_and_carets() {
    let span = Span::new(Rc::new("1 + x".to_string()), 4, 4);
    assert_eq!(plain(&span.render()), "0 | 1 + x\n        ^");
}

#[test]
fn span_on_a_later_line_counts_newlines() {
    let source = Rc::new("1\n22\nprint 1 / 0\nlast".to_string());
    let span = Span::new(source, 11, 15);
    assert_eq!(plain(&span.render()), "2 | print 1 / 0\n          ^^^^^");
}

#[test]
fn span_on_a_final_line_without_newline() {
    let span = Span::new(Rc::new("a\nbc".to_string()), 3, 3);
    assert_eq!(plain(&span.render()), "1 | bc\n     ^");
}

#[test]
fn span_at_the_end_of_the_source() {
    let span = Span::new(Rc::new("1 + 2".to_string()), 5, 5);
    assert_eq!(plain(&span.render()), "0 | 1 + 2\n         ^");
}

#[test]
fn colored_carets_are_plain_or_bright_red() {
    let shown = Span::new(Rc::new("xy".to_string()), 0, 1).render();
    assert!(shown == "0 | xy\n    ^^" || shown == "0 | xy\n    \u{1b}[91m^^\u{1b}[0m");
}

#[test]
fn line_numbers_past_nine_use_several_digits() {
    let source = "\n".repeat(12) + "abc";
    let span = Span::new(Rc::new(source), 13, 14);
    assert_eq!(plain(&span.render()), "12 | abc\n      ^^");
}

#[test]
fn error_renders_excerpt_then_kind_and_message() {
    let error = plan("print 1 / 0 $\n".to_string()).unwrap_err();
    assert_eq!(
        plain(&error.render()),
        "0 | print 1 / 0 $\n                ^\nSyntaxError: Could not handle character: '$'"
    );
}

#[test]
fn division_error_renders_its_kind() {
    let error = QclError::new(
        QclErrorType::DivisionByZeroError,
        Span::new(Rc::new("1 / 0".to_string()), 0, 4),
        ":(".to_string(),
    );
    assert_eq!(plain(&error.render()), "0 | 1 / 0\n    ^^^^^\nDivisionByZeroError: :(");
}

#[test]
fn spanned_pairs_item_and_span() {
    let spanned = Spanned::new(7u8, Span::new(Rc::new("abc".to_string()), 1, 2));
    assert_eq!(spanned.item, 7);
    assert_eq!((spanned.span.start, spanned.span.end), (1, 2));
    assert_eq!(spanned.span.copy().source.as_str(), "abc");
}

#[test]
fn message_errors_render_with_their_prefix() {
    assert_eq!(ParserError::new("bad".to_string()).render(), "ParserError: bad");
    assert_eq!(SyntaxError::new("worse".to_string()).render(), "ParserError: worse");
}
