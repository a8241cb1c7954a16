use crate::ast::{
    expr_view, stmt_view, stmts_view, ExprKind, ExprNode, Expression, Statement, StmtKind, StmtNode,
};
use crate::lexer::token_view;
use crate::qcl_error::{QclError, QclErrorType};
use crate::span::{Span, Spanned};
use crate::text::{push_str, string_of};
use crate::token::{debug_text, Lexeme, Token};
use std::rc::Rc;
use vstd::prelude::*;

verus! {

/// A token sequence as the parser sees it: each token with its inclusive span.
pub type Toks = Seq<(Lexeme, int, int)>;

/// A syntax error: the span it points at and its message.
pub struct Fault {
    pub start: int,
    pub end: int,
    pub message: Seq<char>,
}

/// The result of a parse that cannot happen on a token sequence that ends
/// with `End`.
pub open spec fn stuck() -> Fault {
    Fault { start: 0, end: 0, message: Seq::empty() }
}

pub open spec fn unexpected_fault(t: (Lexeme, int, int)) -> Fault {
    Fault { start: t.1, end: t.2, message: "Unexpected token "@ + debug_text(t.0) }
}

pub open spec fn expected_fault(expected: Lexeme, t: (Lexeme, int, int)) -> Fault {
    Fault {
        start: t.1,
        end: t.2,
        message: "Expected "@ + debug_text(expected) + " but found "@ + debug_text(t.0),
    }
}

/// Consuming the token `expected` at position `i`.
pub open spec fn expect_spec(toks: Toks, i: int, expected: Lexeme) -> Result<int, Fault> {
    if !(0 <= i < toks.len()) {
        Err(stuck())
    } else if toks[i].0 == expected {
        Ok(i + 1)
    } else {
        Err(expected_fault(expected, toks[i]))
    }
}

/// `expression := addition`
pub open spec fn expression_spec(toks: Toks, i: int) -> Result<(ExprNode, int), Fault>
    decreases toks.len() - i, 4nat,
{
    if !(0 <= i <= toks.len()) {
        Err(stuck())
    } else {
        addition_spec(toks, i)
    }
}

/// `addition := multiplication (('+' | '-') multiplication)*`
pub open spec fn addition_spec(toks: Toks, i: int) -> Result<(ExprNode, int), Fault>
    decreases toks.len() - i, 3nat,
{
    if !(0 <= i <= toks.len()) {
        Err(stuck())
    } else {
        match multiplication_spec(toks, i) {
            Err(f) => Err(f),
            Ok((e, j)) => if i <= j <= toks.len() {
                addition_rest(toks, e, j)
            } else {
                Err(stuck())
            },
        }
    }
}

/// The operators of an addition after its first operand `acc`, folded to
/// the left, from position `j` on.
pub open spec fn addition_rest(toks: Toks, acc: ExprNode, j: int) -> Result<(ExprNode, int), Fault>
    decreases toks.len() - j, 2nat,
{
    if 0 <= j < toks.len() && (toks[j].0 is Plus || toks[j].0 is Minus) {
        match multiplication_spec(toks, j + 1) {
            Err(f) => Err(f),
            Ok((r, k)) => if j < k <= toks.len() {
                let kind = if toks[j].0 is Plus {
                    ExprKind::Addition(Box::new(acc), Box::new(r))
                } else {
                    ExprKind::Subtraction(Box::new(acc), Box::new(r))
                };
                addition_rest(toks, ExprNode { kind, start: acc.start, end: r.end }, k)
            } else {
                Err(stuck())
            },
        }
    } else {
        Ok((acc, j))
    }
}

/// `multiplication := unary (('*' | '/') unary)*`
pub open spec fn multiplication_spec(toks: Toks, i: int) -> Result<(ExprNode, int), Fault>
    decreases toks.len() - i, 2nat,
{
    if !(0 <= i <= toks.len()) {
        Err(stuck())
    } else {
        match unary_spec(toks, i) {
            Err(f) => Err(f),
            Ok((e, j)) => if i <= j <= toks.len() {
                multiplication_rest(toks, e, j)
            } else {
                Err(stuck())
            },
        }
    }
}

/// The operators of a multiplication after its first operand `acc`, folded
/// to the left, from position `j` on.
pub open spec fn multiplication_rest(toks: Toks, acc: ExprNode, j: int) -> Result<
    (ExprNode, int),
    Fault,
>
    decreases toks.len() - j, 1nat,
{
    if 0 <= j < toks.len() && (toks[j].0 is Star || toks[j].0 is Slash) {
        match unary_spec(toks, j + 1) {
            Err(f) => Err(f),
            Ok((r, k)) => if j < k <= toks.len() {
                let kind = if toks[j].0 is Star {
                    ExprKind::Multiplication(Box::new(acc), Box::new(r))
                } else {
                    ExprKind::Division(Box::new(acc), Box::new(r))
                };
                multiplication_rest(toks, ExprNode { kind, start: acc.start, end: r.end }, k)
            } else {
                Err(stuck())
            },
        }
    } else {
        Ok((acc, j))
    }
}

/// `unary := NUMBER | '-' unary | '(' expression ')'`; a group takes the
/// span of its parentheses.
pub open spec fn unary_spec(toks: Toks, i: int) -> Result<(ExprNode, int), Fault>
    decreases toks.len() - i, 0nat,
{
    if !(0 <= i < toks.len()) {
        Err(stuck())
    } else {
        let t = toks[i];
        match t.0 {
            Lexeme::Number(text) => Ok(
                (ExprNode { kind: ExprKind::Number(text), start: t.1, end: t.2 }, i + 1),
            ),
            Lexeme::Minus => match unary_spec(toks, i + 1) {
                Err(f) => Err(f),
                Ok((x, j)) => Ok(
                    (ExprNode { kind: ExprKind::Negation(Box::new(x)), start: t.1, end: x.end }, j),
                ),
            },
            Lexeme::LeftParen => match expression_spec(toks, i + 1) {
                Err(f) => Err(f),
                Ok((x, j)) => match expect_spec(toks, j, Lexeme::RightParen) {
                    Err(f) => Err(f),
                    Ok(k) => Ok((ExprNode { kind: x.kind, start: t.1, end: toks[j].2 }, k)),
                },
            },
            _ => Err(unexpected_fault(t)),
        }
    }
}

/// `statement := block | print_stmt | expr_stmt`, followed by a newline.
pub open spec fn statement_spec(toks: Toks, i: int) -> Result<(StmtNode, int), Fault>
    decreases toks.len() - i, 1nat,
{
    if !(0 <= i < toks.len()) {
        Err(stuck())
    } else {
        let r = match toks[i].0 {
            Lexeme::LeftCurly => block_spec(toks, i),
            Lexeme::Print => print_spec(toks, i),
            _ => match expression_spec(toks, i) {
                Err(f) => Err(f),
                Ok((x, j)) => Ok(
                    (StmtNode { kind: StmtKind::Expression(x), start: x.start, end: x.end }, j),
                ),
            },
        };
        match r {
            Err(f) => Err(f),
            Ok((s, j)) => match expect_spec(toks, j, Lexeme::Newline) {
                Err(f) => Err(f),
                Ok(k) => Ok((s, k)),
            },
        }
    }
}

/// `print_stmt := PRINT expression`, where position `i` holds `print`.
pub open spec fn print_spec(toks: Toks, i: int) -> Result<(StmtNode, int), Fault> {
    match expect_spec(toks, i, Lexeme::Print) {
        Err(f) => Err(f),
        Ok(j) => match expression_spec(toks, j) {
            Err(f) => Err(f),
            Ok((x, k)) => Ok(
                (StmtNode { kind: StmtKind::Print(x), start: toks[i].1, end: x.end }, k),
            ),
        },
    }
}

/// `block := '{' (NEWLINE | statement)* '}'`; a block takes the span of its
/// braces.
pub open spec fn block_spec(toks: Toks, i: int) -> Result<(StmtNode, int), Fault>
    decreases toks.len() - i, 0nat,
{
    match expect_spec(toks, i, Lexeme::LeftCurly) {
        Err(f) => Err(f),
        Ok(j) => match block_items(toks, j, Seq::empty()) {
            Err(f) => Err(f),
            Ok((items, k)) => match expect_spec(toks, k, Lexeme::RightCurly) {
                Err(f) => Err(f),
                Ok(n) => Ok(
                    (StmtNode { kind: StmtKind::Block(items), start: toks[i].1, end: toks[k].2 }, n),
                ),
            },
        },
    }
}

/// The statements of a block from position `j` on, after those in `acc`,
/// up to its closing brace, skipping newlines between them.
pub open spec fn block_items(toks: Toks, j: int, acc: Seq<StmtNode>) -> Result<
    (Seq<StmtNode>, int),
    Fault,
>
    decreases toks.len() - j, 2nat,
{
    if !(0 <= j < toks.len()) {
        Err(stuck())
    } else if toks[j].0 is RightCurly {
        Ok((acc, j))
    } else if toks[j].0 is Newline {
        block_items(toks, j + 1, acc)
    } else {
        match statement_spec(toks, j) {
            Err(f) => Err(f),
            Ok((s, k)) => if j < k <= toks.len() {
                block_items(toks, k, acc.push(s))
            } else {
                Err(stuck())
            },
        }
    }
}

/// A whole program from position `i`: one statement, then `End`.
pub open spec fn parse_spec(toks: Toks, i: int) -> Result<StmtNode, Fault> {
    match statement_spec(toks, i) {
        Err(f) => Err(f),
        Ok((s, j)) => match expect_spec(toks, j, Lexeme::End) {
            Err(f) => Err(f),
            Ok(_) => Ok(s),
        },
    }
}

pub open spec fn is_fault(e: QclError, f: Fault) -> bool {
    e.is_syntax_error(f.start, f.end, f.message)
}

/// A recursive-descent parser over a token sequence.
pub struct Parser {
    source: Rc<String>,
    tokens: Vec<Spanned<Token>>,
    index: usize,
}

impl Parser {
    /// The tokens being parsed, as the parser sees them.
    pub closed spec fn toks(&self) -> Toks {
        self.tokens@.map_values(|t: Spanned<Token>| token_view(t))
    }

    /// The position of the next token to read.
    pub closed spec fn position(&self) -> int {
        self.index as int
    }

    /// The shared source that the spans of the tree refer to.
    pub closed spec fn shared_source(&self) -> Rc<String> {
        self.source
    }

    /// The parser can read on: the tokens end with `End` and the position
    /// lies within them.
    pub open spec fn ready(&self) -> bool {
        &&& self.position() < self.toks().len()
        &&& self.toks().last().0 is End
    }

    pub fn new(source: String, tokens: Vec<Spanned<Token>>) -> (r: Self)
        ensures
            r.toks() == tokens@.map_values(|t: Spanned<Token>| token_view(t)),
            r.position() == 0,
            r.shared_source()@ == source@,
    {
        Parser { source: Rc::new(source), tokens, index: 0 }
    }

    /// The token at the current position.
    fn peek(&self) -> (r: &Spanned<Token>)
        requires
            self.ready(),
        ensures
            token_view(*r) == self.toks()[self.position()],
    {
        &self.tokens[self.index]
    }

    fn advance(&mut self)
        requires
            old(self).ready(),
            !(old(self).toks()[old(self).position()].0 is End),
        ensures
            final(self).toks() == old(self).toks(),
            final(self).shared_source() == old(self).shared_source(),
            final(self).position() == old(self).position() + 1,
            final(self).ready(),
    {
        let n = self.tokens.len();
        assert(self.toks().len() == n);
        self.index += 1;
    }

    /// Consumes the current token if it is `expected`; otherwise the syntax
    /// error that names both.
    fn advance_specific(&mut self, expected: Token) -> (r: Result<Spanned<Token>, QclError>)
        requires
            old(self).ready(),
        ensures
            final(self).toks() == old(self).toks(),
            final(self).shared_source() == old(self).shared_source(),
            match (r, expect_spec(old(self).toks(), old(self).position(), expected@)) {
                (Ok(t), Ok(j)) => {
                    &&& token_view(t) == old(self).toks()[old(self).position()]
                    &&& final(self).position() == j
                    &&& !(expected@ is End) ==> final(self).ready()
                },
                (Err(e), Err(f)) => is_fault(e, f),
                _ => false,
            },
    {
        let token = self.peek();
        let n = self.tokens.len();
        assert(self.toks().len() == n);
        if token.item == expected {
            let copy = Spanned::new(token.item.copy(), token.span.copy());
            if self.index + 1 < n {
                self.index += 1;
            } else {
                self.index = n;
            }
            Ok(copy)
        } else {
            let mut message: Vec<char> = Vec::new();
            push_str(&mut message, "Expected ");
            expected.push_debug(&mut message);
            push_str(&mut message, " but found ");
            token.item.push_debug(&mut message);
            Err(QclError::new(QclErrorType::SyntaxError, token.span.copy(), string_of(&message)))
        }
    }

    /// Parses one statement and then requires the end of the tokens.
    pub fn parse(&mut self) -> (r: Result<Spanned<Statement>, QclError>)
        requires
            old(self).ready(),
        ensures
            match (r, parse_spec(old(self).toks(), old(self).position())) {
                (Ok(s), Ok(n)) => stmt_view(s) == n,
                (Err(e), Err(f)) => is_fault(e, f),
                _ => false,
            },
    {
        let statement = match self.parse_statement() {
            Ok(s) => s,
            Err(e) => return Err(e),
        };
        match self.advance_specific(Token::End) {
            Ok(_) => Ok(statement),
            Err(e) => Err(e),
        }
    }

    fn parse_statement(&mut self) -> (r: Result<Spanned<Statement>, QclError>)
        requires
            old(self).ready(),
        ensures
            final(self).toks() == old(self).toks(),
            final(self).shared_source() == old(self).shared_source(),
            match (r, statement_spec(old(self).toks(), old(self).position())) {
                (Ok(x), Ok((n, j))) => {
                    &&& stmt_view(x) == n
                    &&& final(self).position() == j
                    &&& old(self).position() < j
                    &&& final(self).ready()
                },
                (Err(e), Err(f)) => is_fault(e, f),
                _ => false,
            },
        decreases old(self).toks().len() - old(self).position(), 1nat,
    {
        let starts = match self.peek().item {
            Token::LeftCurly => 0u8,
            Token::Print => 1u8,
            _ => 2u8,
        };
        let parsed = if starts == 0 {
            self.parse_block()
        } else if starts == 1 {
            self.parse_print()
        } else {
            match self.parse_expression() {
                Ok(expression) => {
                    let span = Span::new(
                        self.source.clone(),
                        expression.span.start,
                        expression.span.end,
                    );
                    Ok(Spanned::new(Statement::Expression(Box::new(expression)), span))
                },
                Err(e) => Err(e),
            }
        };
        let statement = match parsed {
            Ok(s) => s,
            Err(e) => return Err(e),
        };
        match self.advance_specific(Token::Newline) {
            Ok(_) => Ok(statement),
            Err(e) => Err(e),
        }
    }

    fn parse_block(&mut self) -> (r: Result<Spanned<Statement>, QclError>)
        requires
            old(self).ready(),
        ensures
            final(self).toks() == old(self).toks(),
            final(self).shared_source() == old(self).shared_source(),
            match (r, block_spec(old(self).toks(), old(self).position())) {
                (Ok(x), Ok((n, j))) => {
                    &&& stmt_view(x) == n
                    &&& final(self).position() == j
                    &&& old(self).position() < j
                    &&& final(self).ready()
                },
                (Err(e), Err(f)) => is_fault(e, f),
                _ => false,
            },
        decreases old(self).toks().len() - old(self).position(), 0nat,
    {
        let ghost toks = self.toks();
        let ghost i = self.position();
        let left_curly = match self.advance_specific(Token::LeftCurly) {
            Ok(t) => t,
            Err(e) => return Err(e),
        };
        let mut statements: Vec<Spanned<Statement>> = Vec::new();
        loop
            invariant
                toks == old(self).toks(),
                i == old(self).position(),
                self.toks() == toks,
                self.shared_source() == old(self).shared_source(),
                self.ready(),
                i < self.position(),
                token_view(left_curly) == toks[i],
                expect_spec(toks, i, Lexeme::LeftCurly) == Ok::<int, Fault>(i + 1),
                block_items(toks, self.position(), stmts_view(statements@, statements@.len() as int))
                    == block_items(toks, i + 1, Seq::empty()),
            decreases toks.len() - self.position(),
        {
            let ghost before = statements@;
            let at = match self.peek().item {
                Token::RightCurly => 0u8,
                Token::Newline => 1u8,
                _ => 2u8,
            };
            if at == 0 {
                let right_curly = match self.advance_specific(Token::RightCurly) {
                    Ok(t) => t,
                    Err(e) => return Err(e),
                };
                let span = Span::new(self.source.clone(), left_curly.span.start, right_curly.span.end);
                return Ok(Spanned::new(Statement::Block(statements), span));
            } else if at == 1 {
                self.advance();
            } else {
                let statement = match self.parse_statement() {
                    Ok(s) => s,
                    Err(e) => return Err(e),
                };
                statements.push(statement);
                proof {
                    lemma_stmts_view_push(before, statement, before.len() as int);
                }
            }
        }
    }

    fn parse_print(&mut self) -> (r: Result<Spanned<Statement>, QclError>)
        requires
            old(self).ready(),
        ensures
            final(self).toks() == old(self).toks(),
            final(self).shared_source() == old(self).shared_source(),
            match (r, print_spec(old(self).toks(), old(self).position())) {
                (Ok(x), Ok((n, j))) => {
                    &&& stmt_view(x) == n
                    &&& final(self).position() == j
                    &&& old(self).position() < j
                    &&& final(self).ready()
                },
                (Err(e), Err(f)) => is_fault(e, f),
                _ => false,
            },
    {
        let print = match self.advance_specific(Token::Print) {
            Ok(t) => t,
            Err(e) => return Err(e),
        };
        let inner = match self.parse_expression() {
            Ok(x) => x,
            Err(e) => return Err(e),
        };
        let span = Span::new(self.source.clone(), print.span.start, inner.span.end);
        Ok(Spanned::new(Statement::Print(Box::new(inner)), span))
    }

    fn parse_expression(&mut self) -> (r: Result<Spanned<Expression>, QclError>)
        requires
            old(self).ready(),
        ensures
            final(self).toks() == old(self).toks(),
            final(self).shared_source() == old(self).shared_source(),
            match (r, expression_spec(old(self).toks(), old(self).position())) {
                (Ok(x), Ok((n, j))) => {
                    &&& expr_view(x) == n
                    &&& final(self).position() == j
                    &&& old(self).position() < j
                    &&& final(self).ready()
                },
                (Err(e), Err(f)) => is_fault(e, f),
                _ => false,
            },
        decreases old(self).toks().len() - old(self).position(), 4nat,
    {
        self.parse_addition()
    }

    fn parse_addition(&mut self) -> (r: Result<Spanned<Expression>, QclError>)
        requires
            old(self).ready(),
        ensures
            final(self).toks() == old(self).toks(),
            final(self).shared_source() == old(self).shared_source(),
            match (r, addition_spec(old(self).toks(), old(self).position())) {
                (Ok(x), Ok((n, j))) => {
                    &&& expr_view(x) == n
                    &&& final(self).position() == j
                    &&& old(self).position() < j
                    &&& final(self).ready()
                },
                (Err(e), Err(f)) => is_fault(e, f),
                _ => false,
            },
        decreases old(self).toks().len() - old(self).position(), 3nat,
    {
        let ghost toks = self.toks();
        let ghost i = self.position();
        let mut current = match self.parse_multiplication() {
            Ok(x) => x,
            Err(e) => return Err(e),
        };
        loop
            invariant
                toks == old(self).toks(),
                i == old(self).position(),
                self.toks() == toks,
                self.shared_source() == old(self).shared_source(),
                self.ready(),
                i < self.position(),
                addition_rest(toks, expr_view(current), self.position()) == addition_spec(toks, i),
            decreases toks.len() - self.position(),
        {
            let op = match self.peek().item {
                Token::Plus => 0u8,
                Token::Minus => 1u8,
                _ => 2u8,
            };
            if op == 2 {
                return Ok(current);
            }
            self.advance();
            let right = match self.parse_multiplication() {
                Ok(x) => x,
                Err(e) => return Err(e),
            };
            let span = Span::new(self.source.clone(), current.span.start, right.span.end);
            let item = if op == 0 {
                Expression::Addition(Box::new(current), Box::new(right))
            } else {
                Expression::Subtraction(Box::new(current), Box::new(right))
            };
            current = Spanned::new(item, span);
        }
    }

    fn parse_multiplication(&mut self) -> (r: Result<Spanned<Expression>, QclError>)
        requires
            old(self).ready(),
        ensures
            final(self).toks() == old(self).toks(),
            final(self).shared_source() == old(self).shared_source(),
            match (r, multiplication_spec(old(self).toks(), old(self).position())) {
                (Ok(x), Ok((n, j))) => {
                    &&& expr_view(x) == n
                    &&& final(self).position() == j
                    &&& old(self).position() < j
                    &&& final(self).ready()
                },
                (Err(e), Err(f)) => is_fault(e, f),
                _ => false,
            },
        decreases old(self).toks().len() - old(self).position(), 2nat,
    {
        let ghost toks = self.toks();
        let ghost i = self.position();
        let mut current = match self.parse_unary() {
            Ok(x) => x,
            Err(e) => return Err(e),
        };
        loop
            invariant
                toks == old(self).toks(),
                i == old(self).position(),
                self.toks() == toks,
                self.shared_source() == old(self).shared_source(),
                self.ready(),
                i < self.position(),
                multiplication_rest(toks, expr_view(current), self.position())
                    == multiplication_spec(toks, i),
            decreases toks.len() - self.position(),
        {
            let op = match self.peek().item {
                Token::Star => 0u8,
                Token::Slash => 1u8,
                _ => 2u8,
            };
            if op == 2 {
                return Ok(current);
            }
            self.advance();
            let right = match self.parse_unary() {
                Ok(x) => x,
                Err(e) => return Err(e),
            };
            let span = Span::new(self.source.clone(), current.span.start, right.span.end);
            let item = if op == 0 {
                Expression::Multiplication(Box::new(current), Box::new(right))
            } else {
                Expression::Division(Box::new(current), Box::new(right))
            };
            current = Spanned::new(item, span);
        }
    }

    fn parse_unary(&mut self) -> (r: Result<Spanned<Expression>, QclError>)
        requires
            old(self).ready(),
        ensures
            final(self).toks() == old(self).toks(),
            final(self).shared_source() == old(self).shared_source(),
            match (r, unary_spec(old(self).toks(), old(self).position())) {
                (Ok(x), Ok((n, j))) => {
                    &&& expr_view(x) == n
                    &&& final(self).position() == j
                    &&& old(self).position() < j
                    &&& final(self).ready()
                },
                (Err(e), Err(f)) => is_fault(e, f),
                _ => false,
            },
        decreases old(self).toks().len() - old(self).position(), 0nat,
    {
        let current = self.peek();
        let start = current.span.start;
        match &current.item {
            Token::Number(text) => {
                let numeral = text.clone();
                let span = Span::new(self.source.clone(), start, current.span.end);
                self.advance();
                Ok(Spanned::new(Expression::Number(numeral), span))
            },
            Token::Minus => {
                self.advance();
                let next = match self.parse_unary() {
                    Ok(x) => x,
                    Err(e) => return Err(e),
                };
                let span = Span::new(self.source.clone(), start, next.span.end);
                Ok(Spanned::new(Expression::Negation(Box::new(next)), span))
            },
            Token::LeftParen => {
                self.advance();
                let inner = match self.parse_expression() {
                    Ok(x) => x,
                    Err(e) => return Err(e),
                };
                let right_paren = match self.advance_specific(Token::RightParen) {
                    Ok(t) => t,
                    Err(e) => return Err(e),
                };
                let span = Span::new(self.source.clone(), start, right_paren.span.end);
                Ok(Spanned::new(inner.item, span))
            },
            _ => {
                let mut message: Vec<char> = Vec::new();
                push_str(&mut message, "Unexpected token ");
                current.item.push_debug(&mut message);
                Err(QclError::new(QclErrorType::SyntaxError, current.span.copy(), string_of(&message)))
            },
        }
    }
}

/// Appending a statement appends its model.
pub proof fn lemma_stmts_view_push(v: Seq<Spanned<Statement>>, s: Spanned<Statement>, n: int)
    requires
        0 <= n <= v.len(),
    ensures
        stmts_view(v.push(s), n) == stmts_view(v, n),
        n == v.len() ==> stmts_view(v.push(s), n + 1) == stmts_view(v, n).push(stmt_view(s)),
    decreases n,
{
    if n > 0 {
        lemma_stmts_view_push(v, s, n - 1);
        assert(v.push(s)[n - 1] == v[n - 1]);
    }
    if n == v.len() {
        assert(v.push(s)[n] == s);
    }
}

} // verus!
