use qcl::interpreter::{division_by_zero, Instruction};
use qcl::pipeline::plan;
use qcl::qcl_error::{QclError, QclErrorType};

/// Runs the steps on a stack of doubles, returning the printed values.
fn run(source: &str) -> Result<Vec<f64>, QclError> {
    let steps = plan(source.to_string())?;
    let mut stack: Vec<f64> = Vec::new();
    let mut printed = Vec::new();
    for step in steps {
        match step {
            Instruction::Number(text) => stack.push(text.parse().unwrap()),
            Instruction::Negate => {
                let v = stack.pop().unwrap();
                stack.push(-v);
            }
            Instruction::Add => {
                let r = stack.pop().unwrap();
                let l = stack.pop().unwrap();
                stack.push(l + r);
            }
            Instruction::Subtract => {
                let r = stack.pop().unwrap();
                let l = stack.pop().unwrap();
                stack.push(l - r);
            }
            Instruction::Multiply => {
                let r = stack.pop().unwrap();
                let l = stack.pop().unwrap();
                stack.push(l * r);
            }
            Instruction::Divide => {
                let l = stack.pop().unwrap();
                let r = stack.pop().unwrap();
                stack.push(l / r);
            }
            Instruction::CheckDivisor(span) => {
                if *stack.last().unwrap() == 0.0 {
                    return Err(division_by_zero(span));
                }
            }
            Instruction::Print => printed.push(stack.pop().unwrap()),
            Instruction::Discard => {
                stack.pop().unwrap();
            }
        }
    }
    Ok(printed)
}

#[test]
fn precedence_of_multiplication() {
    assert_eq!(run("print 2 + 3 * 4\n").unwrap(), vec![14.0]);
    assert_eq!(run("print (2 + 3) * 4\n").unwrap(), vec![20.0]);
}

#[test]
fn subtraction_is_left_associative() {
    assert_eq!(run("print 10 - 2 - 3\n").unwrap(), vec![5.0]);
}

#[test]
fn double_negation() {
    assert_eq!(run("print - - 5\n").unwrap(), vec![5.0]);
}

#[test]
fn division_by_zero_points_at_the_division() {
    let error = run("1 / 0\n").unwrap_err();
    assert_eq!(error.error_type, QclErrorType::DivisionByZeroError);
    assert_eq!((error.span.start, error.span.end), (0, 4));
    assert_eq!(error.message, ":(");
}

#[test]
fn division_by_zero_inside_a_larger_program() {
    let error = run("print 2 + 1 / 0\n").unwrap_err();
    assert_eq!(error.error_type, QclErrorType::DivisionByZeroError);
    assert_eq!((error.span.start, error.span.end), (10, 14));
}

#[test]
fn divisor_is_checked_before_the_dividend_is_evaluated() {
    let error = run("(1 / 0) / (2 - 2)\n").unwrap_err();
    assert_eq!((error.span.start, error.span.end), (0, 16));
}

#[test]
fn division_by_a_zero_valued_expression() {
    let error = run("print 4 / (2 - 2)\n").unwrap_err();
    assert_eq!((error.span.start, error.span.end), (6, 16));
}

#[test]
fn block_prints_in_order() {
    assert_eq!(run("{ print 1\nprint 2\n }\n").unwrap(), vec![1.0, 2.0]);
}

#[test]
fn failure_in_a_block_stops_the_rest() {
    let steps = plan("{ print 1\nprint 1 / 0\nprint 3\n}\n".to_string()).unwrap();
    assert_eq!(steps.len(), 9);
    let error = run("{ print 1\nprint 1 / 0\nprint 3\n}\n").unwrap_err();
    assert_eq!(error.error_type, QclErrorType::DivisionByZeroError);
    assert_eq!((error.span.start, error.span.end), (16, 20));
}

#[test]
fn expression_statement_prints_nothing() {
    assert_eq!(run("1 + 2\n").unwrap(), Vec::<f64>::new());
}

#[test]
fn decimal_arithmetic_follows_doubles() {
    assert_eq!(run("print 0.1 + 0.2\n").unwrap(), vec![0.1 + 0.2]);
    assert_eq!(run("print 7 / 2\n").unwrap(), vec![3.5]);
}

#[test]
fn steps_evaluate_the_divisor_first() {
    let steps = plan("print 6 / 3\n".to_string()).unwrap();
    assert_eq!(steps.len(), 5);
    assert!(matches!(&steps[0], Instruction::Number(t) if t == "3"));
    assert!(matches!(&steps[1], Instruction::CheckDivisor(s) if s.start == 6 && s.end == 10));
    assert!(matches!(&steps[2], Instruction::Number(t) if t == "6"));
    assert!(matches!(steps[3], Instruction::Divide));
    assert!(matches!(steps[4], Instruction::Print));
}

#[test]
fn plan_reports_lexical_and_syntax_errors() {
    let lexical = plan("print 1 # 2\n".to_string()).unwrap_err();
    assert_eq!(lexical.error_type, QclErrorType::SyntaxError);
    assert_eq!((lexical.span.start, lexical.span.end), (8, 8));
    let syntax = plan("print\n".to_string()).unwrap_err();
    assert_eq!(syntax.message, "Unexpected token Newline");
}

#[test]
fn steps_keep_the_stack_balanced() {
    let steps = plan("{\nprint -(1 + 2) * 3 / 4\n5 - 6\n{ print 7\n}\n}\n".to_string()).unwrap();
    let mut depth: i64 = 0;
    for step in &steps {
        let (needs, delta) = match step {
            Instruction::Number(_) => (0, 1),
            Instruction::Negate | Instruction::CheckDivisor(_) => (1, 0),
            Instruction::Add | Instruction::Subtract | Instruction::Multiply | Instruction::Divide => (2, -1),
            Instruction::Print | Instruction::Discard => (1, -1),
        };
        assert!(depth >= needs);
        depth += delta;
    }
    assert_eq!(depth, 0);
    assert_eq!(run("{\nprint -(1 + 2) * 3 / 4\n5 - 6\n{ print 7\n}\n}\n").unwrap(), vec![-2.25, 7.0]);
}
