use qcl::ast::{Expression, Statement};
use qcl::lexer::Lexer;
use qcl::parser::Parser;
use qcl::qcl_error::{QclError, QclErrorType};
use qcl::span::Spanned;

fn parse(source: &str) -> Result<Spanned<Statement>, QclError> {
    let tokens = Lexer::new(source.to_string()).lex().unwrap();
    Parser::new(source.to_string(), tokens).parse()
}

fn expression_of(statement: &Spanned<Statement>) -> &Spanned<Expression> {
    match &statement.item {
        Statement::Expression(inner) => inner,
        Statement::Print(inner) => inner,
        Statement::Block(_) => panic!("a block has no single expression"),
    }
}

fn shape(e: &Spanned<Expression>) -> String {
    match &e.item {
        Expression::Number(t) => t.clone(),
        Expression::Negation(x) => format!("(-{})", shape(x)),
        Expression::Addition(l, r) => format!("({} + {})", shape(l), shape(r)),
        Expression::Subtraction(l, r) => format!("({} - {})", shape(l), shape(r)),
        Expression::Multiplication(l, r) => format!("({} * {})", shape(l), shape(r)),
        Expression::Division(l, r) => format!("({} / {})", shape(l), shape(r)),
    }
}

#[test]
fn unknown_name_fails_as_an_operand_at_its_own_span() {
    let error = parse("1 + x").unwrap_err();
    assert_eq!(error.error_type, QclErrorType::SyntaxError);
    assert_eq!((error.span.start, error.span.end), (4, 4));
    assert_eq!(error.message, "Unexpected token Identifier(\"x\")");
}

#[test]
fn multiplication_binds_tighter_than_addition() {
    let tree = parse("2 + 3 * 4\n").unwrap();
    assert_eq!(shape(expression_of(&tree)), "(2 + (3 * 4))");
    let grouped = parse("(2 + 3) * 4\n").unwrap();
    assert_eq!(shape(expression_of(&grouped)), "((2 + 3) * 4)");
}

#[test]
fn binary_operators_lean_left() {
    let tree = parse("10 - 2 - 3\n").unwrap();
    assert_eq!(shape(expression_of(&tree)), "((10 - 2) - 3)");
    let tree = parse("8 / 4 / 2\n").unwrap();
    assert_eq!(shape(expression_of(&tree)), "((8 / 4) / 2)");
}

#[test]
fn negation_nests_to_the_right() {
    let tree = parse("- - 5\n").unwrap();
    assert_eq!(shape(expression_of(&tree)), "(-(-5))");
    assert_eq!((tree.span.start, tree.span.end), (0, 4));
}

#[test]
fn spans_widen_over_operands_and_parentheses() {
    let tree = parse("1 + (2 * 3)\n").unwrap();
    let e = expression_of(&tree);
    assert_eq!((e.span.start, e.span.end), (0, 10));
    match &e.item {
        Expression::Addition(l, r) => {
            assert_eq!((l.span.start, l.span.end), (0, 0));
            assert_eq!((r.span.start, r.span.end), (4, 10));
            match &r.item {
                Expression::Multiplication(a, b) => {
                    assert_eq!((a.span.start, a.span.end), (5, 5));
                    assert_eq!((b.span.start, b.span.end), (9, 9));
                }
                _ => panic!("expected a multiplication"),
            }
        }
        _ => panic!("expected an addition"),
    }
}

#[test]
fn print_statement_spans_from_the_keyword() {
    let tree = parse("print 1.5\n").unwrap();
    assert!(matches!(tree.item, Statement::Print(_)));
    assert_eq!((tree.span.start, tree.span.end), (0, 8));
}

#[test]
fn block_keeps_its_statements_in_order_and_spans_its_braces() {
    let tree = parse("{\nprint 1\n\n2\n}\n").unwrap();
    assert_eq!((tree.span.start, tree.span.end), (0, 13));
    match &tree.item {
        Statement::Block(statements) => {
            assert_eq!(statements.len(), 2);
            assert!(matches!(statements[0].item, Statement::Print(_)));
            assert!(matches!(statements[1].item, Statement::Expression(_)));
            assert_eq!(shape(expression_of(&statements[0])), "1");
            assert_eq!(shape(expression_of(&statements[1])), "2");
        }
        _ => panic!("expected a block"),
    }
}

#[test]
fn statement_in_block_without_newline_is_a_syntax_error() {
    let error = parse("{ print 1 }\n").unwrap_err();
    assert_eq!(error.error_type, QclErrorType::SyntaxError);
    assert_eq!((error.span.start, error.span.end), (10, 10));
    assert_eq!(error.message, "Expected Newline but found RightCurly");
}

#[test]
fn statement_without_newline_is_a_syntax_error() {
    let error = parse("1 + 2").unwrap_err();
    assert_eq!((error.span.start, error.span.end), (5, 5));
    assert_eq!(error.message, "Expected Newline but found End");
}

#[test]
fn trailing_input_is_a_syntax_error() {
    let error = parse("1\n2\n").unwrap_err();
    assert_eq!((error.span.start, error.span.end), (2, 2));
    assert_eq!(error.message, "Expected End but found Number(\"2\")");
}

#[test]
fn missing_closing_parenthesis_is_a_syntax_error() {
    let error = parse("(1 + 2\n").unwrap_err();
    assert_eq!((error.span.start, error.span.end), (6, 6));
    assert_eq!(error.message, "Expected RightParen but found Newline");
}

#[test]
fn operator_without_operand_is_a_syntax_error() {
    let error = parse("3 *\n").unwrap_err();
    assert_eq!((error.span.start, error.span.end), (3, 3));
    assert_eq!(error.message, "Unexpected token Newline");
}

#[test]
fn unclosed_block_is_a_syntax_error() {
    let error = parse("{\nprint 1\n").unwrap_err();
    assert_eq!(error.message, "Unexpected token End");
}
