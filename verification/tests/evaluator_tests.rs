use calculator::error::EvaluationError;
use calculator::evaluator::{eval_postfix, evaluate_plan, infix_to_rpn};
use calculator::function::Function;
use calculator::operator::{Arity, Operator};
use calculator::plan::ValRef;
use calculator::token::{Operand, Token};
use calculator::tokenizer::tokenize;

fn lit(text: &str) -> Token {
    Token::Operand(Operand::Literal(text.chars().collect()))
}

fn op(operator: Operator) -> Token {
    Token::Operator(operator)
}

/// Carries a plan out with 32-bit float arithmetic, collecting one trace
/// line per reportable operation, exactly as the surrounding program does.
fn resolve(values: &[f32], v: &ValRef) -> f32 {
    match v {
        ValRef::Literal(text) => text.iter().collect::<String>().parse::<f32>().unwrap(),
        ValRef::Step(i) => values[*i],
    }
}

fn run_with_trace(expression: &str) -> Result<(f32, Vec<String>), EvaluationError> {
    let plan = evaluate_plan(expression)?;
    let mut operations: Vec<String> = Vec::new();
    let mut values: Vec<f32> = Vec::new();
    for step in &plan.steps {
        let right = resolve(&values, &step.right);
        let left = match &step.left {
            Some(v) => resolve(&values, v),
            None => 0.0,
        };
        let res = match step.op {
            Operator::Function(Function::Sin) => {
                let res = right.sin();
                operations.push(format!("sin({}) = {}", right, res));
                res
            }
            Operator::Function(Function::Cos) => {
                let res = right.cos();
                operations.push(format!("cos({}) = {}", right, res));
                res
            }
            Operator::Add(arity) => {
                let res = left + right;
                if let Arity::Binary = arity {
                    operations.push(format!("{} + {} = {}", left, right, res));
                }
                res
            }
            Operator::Substract(arity) => {
                let res = left - right;
                if let Arity::Binary = arity {
                    operations.push(format!("{} - {} = {}", left, right, res));
                }
                res
            }
            Operator::Multiply => {
                let res = left * right;
                operations.push(format!("{} * {} = {}", left, right, res));
                res
            }
            Operator::Divide => {
                let res = left / right;
                operations.push(format!("{} / {} = {}", left, right, res));
                res
            }
            _ => 0.0,
        };
        values.push(res);
    }
    let result = resolve(&values, &plan.result);
    Ok((result, operations))
}

fn run(expression: &str) -> Result<f32, EvaluationError> {
    run_with_trace(expression).map(|p| p.0)
}

#[test]
fn test_infix_to_rpn() {
    let expression = String::from("2*(sin(2)*-22)");
    let tokens = tokenize(&expression).unwrap();
    let tokens = infix_to_rpn(tokens).unwrap();

    assert_eq!(
        vec![
            lit("2"),
            lit("2"),
            op(Operator::Function(Function::Sin)),
            lit("22"),
            op(Operator::Substract(Arity::Unary)),
            op(Operator::Multiply),
            op(Operator::Multiply),
        ],
        tokens
    );
}

#[test]
fn test_evaluate() {
    assert_eq!(-40.009087, run("2*(sin(2)*-22)").unwrap());
    assert_eq!(-40.0, run("2* (2-22)").unwrap());
    assert_eq!(0.0, run("2*(123 + 22 / 4 + 1) * 0").unwrap());
    assert_eq!(5.0, run("2+1*3").unwrap());
}

#[test]
fn test_precedence_of_multiplication() {
    assert_eq!(5.0, run("2+1*3").unwrap());
    assert_eq!(7.0, run("1*3+2*2").unwrap());
}

#[test]
fn test_left_associativity() {
    assert_eq!(3.0, run("8-3-2").unwrap());
    assert_eq!(2.0, run("8/2/2").unwrap());
}

#[test]
fn test_unmatched_brackets() {
    assert_eq!(
        run("(2+3").unwrap_err(),
        EvaluationError::UnmatchedOpeningBracket
    );
    assert_eq!(
        run("2+3)").unwrap_err(),
        EvaluationError::UnmatchedClosingBracket
    );
}

#[test]
fn test_doubled_sign_fails() {
    assert!(run("2++").is_err());
}

#[test]
fn test_variables_are_rejected() {
    assert_eq!(
        run("x+1").unwrap_err(),
        EvaluationError::UnsupportedVariable('x')
    );
}

#[test]
fn test_missing_operand() {
    assert_eq!(run("sin()").unwrap_err(), EvaluationError::MissingOperand);
    assert_eq!(run("()").unwrap_err(), EvaluationError::MissingOperand);
    assert_eq!(run("2**3").unwrap_err(), EvaluationError::MissingOperand);
}

#[test]
fn test_malformed_expression() {
    assert_eq!(
        run("(2)(3)").unwrap_err(),
        EvaluationError::MalformedExpression
    );
}

#[test]
fn test_trace_order() {
    let (result, operations) = run_with_trace("2* (2-22)").unwrap();
    assert_eq!(-40.0, result);
    assert_eq!(
        operations,
        vec![String::from("2 - 22 = -20"), String::from("2 * -20 = -40")]
    );
}

#[test]
fn test_unary_signs_leave_no_trace() {
    let (result, operations) = run_with_trace("-2").unwrap();
    assert_eq!(-2.0, result);
    assert_eq!(operations, Vec::<String>::new());
}

#[test]
fn test_evaluate_is_deterministic() {
    let first = evaluate_plan("2*(sin(2)*-22)").unwrap();
    let second = evaluate_plan("2*(sin(2)*-22)").unwrap();
    assert_eq!(first, second);

    let (r1, t1) = run_with_trace("2*(123 + 22 / 4 + 1) * 0").unwrap();
    let (r2, t2) = run_with_trace("2*(123 + 22 / 4 + 1) * 0").unwrap();
    assert_eq!(r1, r2);
    assert_eq!(t1, t2);
}

#[test]
fn test_eval_postfix_directly() {
    let plan = eval_postfix(vec![lit("2"), lit("3"), op(Operator::Add(Arity::Binary))]).unwrap();
    assert_eq!(plan.steps.len(), 1);
    assert_eq!(plan.result, ValRef::Step(0));
    assert_eq!(
        eval_postfix(vec![op(Operator::Multiply)]).unwrap_err(),
        EvaluationError::MissingOperand
    );
    assert_eq!(
        eval_postfix(vec![lit("1"), lit("2")]).unwrap_err(),
        EvaluationError::MalformedExpression
    );
}

#[test]
fn test_division_by_zero_follows_float_semantics() {
    assert_eq!(f32::INFINITY, run("1/0").unwrap());
    assert!(run("0/0").unwrap().is_nan());
}
