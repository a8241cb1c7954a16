use crate::ast::{
    expr_view, stmt_view, stmts_view, ExprKind, ExprNode, Expression, Statement, StmtKind, StmtNode,
};
use crate::qcl_error::{QclError, QclErrorType};
use crate::span::{Span, Spanned};
use crate::text::string_of;
use vstd::prelude::*;

verus! {

/// One step of evaluation over a stack of numbers.
#[derive(Debug)]
pub enum Instruction {
    /// Push the value of a numeral.
    Number(String),
    /// Replace the top value by its negation.
    Negate,
    /// Pop the right operand, then the left one, and push their sum.
    Add,
    /// Pop the right operand, then the left one, and push left minus right.
    Subtract,
    /// Pop the right operand, then the left one, and push their product.
    Multiply,
    /// Pop the left operand (the dividend, evaluated last), then the right
    /// one, and push left divided by right.
    Divide,
    /// Fail with a division-by-zero error at this span if the top value is
    /// zero; the stack is left as it is.
    CheckDivisor(Span),
    /// Pop the top value and emit it as a line of output.
    Print,
    /// Pop the top value and drop it.
    Discard,
}

/// The model of an instruction; a span is its inclusive bounds.
pub enum Step {
    Number(Seq<char>),
    Negate,
    Add,
    Subtract,
    Multiply,
    Divide,
    CheckDivisor(int, int),
    Print,
    Discard,
}

impl View for Instruction {
    type V = Step;

    open spec fn view(&self) -> Step {
        match self {
            Instruction::Number(t) => Step::Number(t@),
            Instruction::Negate => Step::Negate,
            Instruction::Add => Step::Add,
            Instruction::Subtract => Step::Subtract,
            Instruction::Multiply => Step::Multiply,
            Instruction::Divide => Step::Divide,
            Instruction::CheckDivisor(s) => Step::CheckDivisor(s.start as int, s.end as int),
            Instruction::Print => Step::Print,
            Instruction::Discard => Step::Discard,
        }
    }
}

/// The steps that evaluate an expression, in post-order: operands left to
/// right, except that a division evaluates and checks its divisor before
/// its dividend.
pub open spec fn expr_steps(e: ExprNode) -> Seq<Step>
    decreases e,
{
    match e.kind {
        ExprKind::Number(t) => seq![Step::Number(t)],
        ExprKind::Negation(x) => expr_steps(*x).push(Step::Negate),
        ExprKind::Addition(l, r) => (expr_steps(*l) + expr_steps(*r)).push(Step::Add),
        ExprKind::Subtraction(l, r) => (expr_steps(*l) + expr_steps(*r)).push(Step::Subtract),
        ExprKind::Multiplication(l, r) => (expr_steps(*l) + expr_steps(*r)).push(Step::Multiply),
        ExprKind::Division(l, r) => (expr_steps(*r).push(Step::CheckDivisor(e.start, e.end))
            + expr_steps(*l)).push(Step::Divide),
    }
}

/// The steps that execute a statement: a block runs its statements in order.
pub open spec fn stmt_steps(s: StmtNode) -> Seq<Step>
    decreases s, 0nat,
{
    match s.kind {
        StmtKind::Expression(x) => expr_steps(x).push(Step::Discard),
        StmtKind::Print(x) => expr_steps(x).push(Step::Print),
        StmtKind::Block(items) => block_steps(items, items.len() as int),
    }
}

/// The steps of the first `n` statements of a block, in order.
pub open spec fn block_steps(items: Seq<StmtNode>, n: int) -> Seq<Step>
    decreases items, n,
{
    if n <= 0 || n > items.len() {
        Seq::empty()
    } else {
        proof {
            broadcast use vstd::seq::axiom_seq_index_decreases;
        }
        block_steps(items, n - 1) + stmt_steps(items[n - 1])
    }
}

/// How many values a step reads from the stack.
pub open spec fn needs(s: Step) -> int {
    match s {
        Step::Number(_) => 0,
        Step::Add | Step::Subtract | Step::Multiply | Step::Divide => 2,
        _ => 1,
    }
}

/// How a step changes the number of values on the stack.
pub open spec fn delta(s: Step) -> int {
    match s {
        Step::Number(_) => 1,
        Step::Negate | Step::CheckDivisor(..) => 0,
        _ => -1,
    }
}

/// The stack depth after running `steps` from depth `d`, or `None` where
/// some step finds fewer values than it reads.
pub open spec fn final_depth(steps: Seq<Step>, d: int) -> Option<int>
    decreases steps.len(),
{
    if steps.len() == 0 {
        Some(d)
    } else if d < needs(steps[0]) {
        None
    } else {
        final_depth(steps.drop_first(), d + delta(steps[0]))
    }
}

proof fn lemma_final_depth_append(a: Seq<Step>, b: Seq<Step>, d: int)
    ensures
        final_depth(a + b, d) == match final_depth(a, d) {
            Some(m) => final_depth(b, m),
            None => None,
        },
    decreases a.len(),
{
    if a.len() == 0 {
        assert(a + b =~= b);
    } else {
        assert((a + b).drop_first() =~= a.drop_first() + b);
        assert((a + b)[0] == a[0]);
        lemma_final_depth_append(a.drop_first(), b, d + delta(a[0]));
    }
}

proof fn lemma_final_depth_push(a: Seq<Step>, s: Step, d: int)
    ensures
        final_depth(a.push(s), d) == match final_depth(a, d) {
            Some(m) => if m < needs(s) { None } else { Some(m + delta(s)) },
            None => None,
        },
{
    assert(a.push(s) =~= a + seq![s]);
    lemma_final_depth_append(a, seq![s], d);
    assert(seq![s].drop_first() =~= Seq::<Step>::empty());
    if let Some(m) = final_depth(a, d) {
        assert(final_depth(Seq::<Step>::empty(), m + delta(s)) == Some(m + delta(s)));
    }
}

/// The steps of an expression push exactly one value and never read below
/// the depth they start at.
pub proof fn lemma_expression_steps_push_one(e: ExprNode, d: int)
    requires
        d >= 0,
    ensures
        final_depth(expr_steps(e), d) == Some(d + 1),
    decreases e,
{
    match e.kind {
        ExprKind::Number(t) => {
            lemma_final_depth_push(Seq::empty(), Step::Number(t), d);
            assert(seq![Step::Number(t)] =~= Seq::<Step>::empty().push(Step::Number(t)));
        },
        ExprKind::Negation(x) => {
            lemma_expression_steps_push_one(*x, d);
            lemma_final_depth_push(expr_steps(*x), Step::Negate, d);
        },
        ExprKind::Addition(l, r) => {
            lemma_expression_steps_push_one(*l, d);
            lemma_expression_steps_push_one(*r, d + 1);
            lemma_binary_steps(*l, *r, Step::Add, d);
        },
        ExprKind::Subtraction(l, r) => {
            lemma_expression_steps_push_one(*l, d);
            lemma_expression_steps_push_one(*r, d + 1);
            lemma_binary_steps(*l, *r, Step::Subtract, d);
        },
        ExprKind::Multiplication(l, r) => {
            lemma_expression_steps_push_one(*l, d);
            lemma_expression_steps_push_one(*r, d + 1);
            lemma_binary_steps(*l, *r, Step::Multiply, d);
        },
        ExprKind::Division(l, r) => {
            let check = Step::CheckDivisor(e.start, e.end);
            lemma_expression_steps_push_one(*r, d);
            lemma_final_depth_push(expr_steps(*r), check, d);
            lemma_expression_steps_push_one(*l, d + 1);
            lemma_final_depth_append(expr_steps(*r).push(check), expr_steps(*l), d);
            lemma_final_depth_push(expr_steps(*r).push(check) + expr_steps(*l), Step::Divide, d);
        },
    }
}

proof fn lemma_binary_steps(l: ExprNode, r: ExprNode, op: Step, d: int)
    requires
        needs(op) == 2,
        delta(op) == -1,
        final_depth(expr_steps(l), d) == Some(d + 1),
        final_depth(expr_steps(r), d + 1) == Some(d + 2),
    ensures
        final_depth((expr_steps(l) + expr_steps(r)).push(op), d) == Some(d + 1),
{
    lemma_final_depth_append(expr_steps(l), expr_steps(r), d);
    lemma_final_depth_push(expr_steps(l) + expr_steps(r), op, d);
}

/// The steps of a statement never read below the depth they start at, and
/// leave the stack as deep as they found it.
pub proof fn lemma_statement_steps_balance(s: StmtNode, d: int)
    requires
        d >= 0,
    ensures
        final_depth(stmt_steps(s), d) == Some(d),
    decreases s, 0nat,
{
    match s.kind {
        StmtKind::Expression(x) => {
            lemma_expression_steps_push_one(x, d);
            lemma_final_depth_push(expr_steps(x), Step::Discard, d);
        },
        StmtKind::Print(x) => {
            lemma_expression_steps_push_one(x, d);
            lemma_final_depth_push(expr_steps(x), Step::Print, d);
        },
        StmtKind::Block(items) => {
            lemma_block_steps_balance(items, items.len() as int, d);
        },
    }
}

proof fn lemma_block_steps_balance(items: Seq<StmtNode>, n: int, d: int)
    requires
        d >= 0,
    ensures
        final_depth(block_steps(items, n), d) == Some(d),
    decreases items, n,
{
    if n <= 0 || n > items.len() {
        assert(final_depth(Seq::<Step>::empty(), d) == Some(d));
    } else {
        broadcast use vstd::seq::axiom_seq_index_decreases;
        lemma_block_steps_balance(items, n - 1, d);
        lemma_statement_steps_balance(items[n - 1], d);
        lemma_final_depth_append(block_steps(items, n - 1), stmt_steps(items[n - 1]), d);
    }
}

pub open spec fn steps_of(v: Seq<Instruction>) -> Seq<Step> {
    v.map_values(|i: Instruction| i@)
}

/// The error raised when a divisor evaluates to zero, at the division's span.
pub fn division_by_zero(span: Span) -> (r: QclError)
    ensures
        r.error_type == QclErrorType::DivisionByZeroError,
        r.span == span,
        r.message@ == seq![':', '('],
{
    let mut message: Vec<char> = Vec::new();
    message.push(':');
    message.push('(');
    QclError::new(QclErrorType::DivisionByZeroError, span, string_of(&message))
}

/// Evaluates a statement tree: turns it into the steps that a stack of
/// numbers runs.
pub struct Interpreter {
    ast: Spanned<Statement>,
}

impl Interpreter {
    /// The model of the tree being evaluated.
    pub closed spec fn tree(&self) -> StmtNode {
        stmt_view(self.ast)
    }

    pub fn new(ast: Spanned<Statement>) -> (r: Self)
        ensures
            r.tree() == stmt_view(ast),
    {
        Interpreter { ast }
    }

    /// The steps that evaluate the whole tree, in order. Run from an empty
    /// stack, no step finds fewer values than it reads, and the stack ends
    /// empty.
    pub fn instructions(&self) -> (r: Vec<Instruction>)
        ensures
            steps_of(r@) == stmt_steps(self.tree()),
            final_depth(steps_of(r@), 0) == Some(0int),
    {
        proof {
            lemma_statement_steps_balance(self.tree(), 0);
        }
        let mut out: Vec<Instruction> = Vec::new();
        emit_statement(&self.ast, &mut out);
        assert(steps_of(out@) =~= Seq::<Step>::empty() + stmt_steps(self.tree()));
        out
    }
}

proof fn lemma_steps_push(v: Seq<Instruction>, i: Instruction)
    ensures
        steps_of(v.push(i)) == steps_of(v).push(i@),
{
    assert(steps_of(v.push(i)) =~= steps_of(v).push(i@));
}

fn emit(out: &mut Vec<Instruction>, i: Instruction)
    ensures
        steps_of(final(out)@) == steps_of(old(out)@).push(i@),
{
    proof {
        lemma_steps_push(out@, i);
    }
    out.push(i);
}

fn emit_statement(s: &Spanned<Statement>, out: &mut Vec<Instruction>)
    ensures
        steps_of(final(out)@) == steps_of(old(out)@) + stmt_steps(stmt_view(*s)),
    decreases s,
{
    match &s.item {
        Statement::Print(x) => {
            emit_expression(x, out);
            emit(out, Instruction::Print);
            assert(steps_of(out@) =~= steps_of(old(out)@) + stmt_steps(stmt_view(*s)));
        },
        Statement::Expression(x) => {
            emit_expression(x, out);
            emit(out, Instruction::Discard);
            assert(steps_of(out@) =~= steps_of(old(out)@) + stmt_steps(stmt_view(*s)));
        },
        Statement::Block(statements) => {
            let ghost items = stmts_view(statements@, statements@.len() as int);
            proof {
                lemma_stmts_view_len(statements@, statements@.len() as int);
            }
            let mut k: usize = 0;
            while k < statements.len()
                invariant
                    s.item == Statement::Block(*statements),
                    k <= statements@.len(),
                    items == stmts_view(statements@, statements@.len() as int),
                    items.len() == statements@.len(),
                    forall|m: int| 0 <= m < statements@.len() ==> #[trigger] items[m] == stmt_view(statements@[m]),
                    steps_of(out@) == steps_of(old(out)@) + block_steps(items, k as int),
                decreases statements@.len() - k,
            {
                proof {
                    vstd::std_specs::vec::axiom_vec_index_decreases(*statements, k as int);
                    assert(decreases_to!(*s => s.item));
                    assert(decreases_to!(s.item => s.item->Block_0));
                    assert(decreases_to!(*statements => statements[k as int]));
                }
                emit_statement(&statements[k], out);
                k += 1;
                assert(steps_of(out@) =~= steps_of(old(out)@) + block_steps(items, k as int));
            }
        },
    }
}

fn emit_expression(e: &Spanned<Expression>, out: &mut Vec<Instruction>)
    ensures
        steps_of(final(out)@) == steps_of(old(out)@) + expr_steps(expr_view(*e)),
    decreases e,
{
    match &e.item {
        Expression::Number(t) => {
            emit(out, Instruction::Number(t.clone()));
        },
        Expression::Negation(x) => {
            emit_expression(x, out);
            emit(out, Instruction::Negate);
        },
        Expression::Addition(l, r) => {
            emit_expression(l, out);
            emit_expression(r, out);
            emit(out, Instruction::Add);
        },
        Expression::Subtraction(l, r) => {
            emit_expression(l, out);
            emit_expression(r, out);
            emit(out, Instruction::Subtract);
        },
        Expression::Multiplication(l, r) => {
            emit_expression(l, out);
            emit_expression(r, out);
            emit(out, Instruction::Multiply);
        },
        Expression::Division(l, r) => {
            emit_expression(r, out);
            emit(out, Instruction::CheckDivisor(e.span.copy()));
            emit_expression(l, out);
            emit(out, Instruction::Divide);
        },
    }
    assert(steps_of(out@) =~= steps_of(old(out)@) + expr_steps(expr_view(*e)));
}

proof fn lemma_stmts_view_len(v: Seq<Spanned<Statement>>, n: int)
    requires
        0 <= n <= v.len(),
    ensures
        stmts_view(v, n).len() == n,
        forall|m: int| 0 <= m < n ==> #[trigger] stmts_view(v, n)[m] == stmt_view(v[m]),
    decreases n,
{
    if n > 0 {
        lemma_stmts_view_len(v, n - 1);
    }
}

} // verus!
