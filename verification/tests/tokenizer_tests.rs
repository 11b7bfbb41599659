use calculator::error::EvaluationError;
use calculator::function::Function;
use calculator::operator::{Arity, Operator};
use calculator::token::{Operand, Token};
use calculator::tokenizer::tokenize;

fn lit(text: &str) -> Token {
    Token::Operand(Operand::Literal(text.chars().collect()))
}

fn var(name: char) -> Token {
    Token::Operand(Operand::Variable(name))
}

fn op(operator: Operator) -> Token {
    Token::Operator(operator)
}

#[test]
fn test_tokenizer() {
    let expression = String::from("2*(sin(2)*-22)");
    let tokens = tokenize(&expression).unwrap();

    assert_eq!(
        vec![
            lit("2"),
            op(Operator::Multiply),
            op(Operator::LBracket),
            op(Operator::Function(Function::Sin)),
            op(Operator::LBracket),
            lit("2"),
            op(Operator::RBracket),
            op(Operator::Multiply),
            op(Operator::Substract(Arity::Unary)),
            lit("22"),
            op(Operator::RBracket),
        ],
        tokens
    );
}

#[test]
fn test_tokenizer_strips_whitespace() {
    assert_eq!(tokenize("2* (2-22)").unwrap(), tokenize("2*(2-22)").unwrap());
    assert_eq!(
        tokenize(" 1 + 2 ").unwrap(),
        vec![lit("1"), op(Operator::Add(Arity::Binary)), lit("2")]
    );
}

#[test]
fn test_tokenizer_unary_signs() {
    assert_eq!(
        tokenize("-2").unwrap(),
        vec![op(Operator::Substract(Arity::Unary)), lit("2")]
    );
    assert_eq!(
        tokenize("(+2)").unwrap(),
        vec![
            op(Operator::LBracket),
            op(Operator::Add(Arity::Unary)),
            lit("2"),
            op(Operator::RBracket),
        ]
    );
    assert_eq!(
        tokenize("3-5").unwrap(),
        vec![lit("3"), op(Operator::Substract(Arity::Binary)), lit("5")]
    );
}

#[test]
fn test_tokenizer_letters_become_variables() {
    assert_eq!(tokenize("ab").unwrap(), vec![var('a'), var('b')]);
    assert_eq!(tokenize("2x").unwrap(), vec![lit("2"), var('x')]);
}

#[test]
fn test_tokenizer_invalid_character() {
    assert_eq!(
        tokenize("2#3"),
        Err(EvaluationError::InvalidCharacter('#', 1))
    );
}

#[test]
fn test_tokenizer_unknown_function() {
    assert_eq!(
        tokenize("tan(2)"),
        Err(EvaluationError::UnknownFunction(vec!['t', 'a', 'n']))
    );
    assert_eq!(
        tokenize("cos(2)"),
        Err(EvaluationError::UnknownFunction(vec!['c', 'o', 's']))
    );
}

#[test]
fn test_tokenizer_malformed_number() {
    assert_eq!(
        tokenize("1.2.3"),
        Err(EvaluationError::MalformedNumber(vec!['1', '.', '2', '.', '3']))
    );
    assert_eq!(
        tokenize("2+."),
        Err(EvaluationError::MalformedNumber(vec!['.']))
    );
    assert_eq!(tokenize("1.5+0.5").unwrap().len(), 3);
}

#[test]
fn test_tokenizer_unexpected_end() {
    assert_eq!(tokenize("2+"), Err(EvaluationError::UnexpectedEnd(2)));
    assert_eq!(tokenize("2*("), Err(EvaluationError::UnexpectedEnd(3)));
    assert_eq!(tokenize(""), Err(EvaluationError::UnexpectedEnd(0)));
}

#[test]
fn test_function_from_str() {
    assert_eq!(Function::from_str("sin"), Ok(Function::Sin));
    assert_eq!(Function::from_str("cosin"), Ok(Function::Cos));
    assert_eq!(
        Function::from_str("exp"),
        Err(EvaluationError::UnknownFunction(vec!['e', 'x', 'p']))
    );
}

#[test]
fn test_operator_from_str() {
    assert_eq!(Operator::from_str("+"), Some(Operator::Add(Arity::Binary)));
    assert_eq!(
        Operator::from_str("-"),
        Some(Operator::Substract(Arity::Binary))
    );
    assert_eq!(Operator::from_str("*"), Some(Operator::Multiply));
    assert_eq!(Operator::from_str("/"), Some(Operator::Divide));
    assert_eq!(Operator::from_str("("), Some(Operator::LBracket));
    assert_eq!(Operator::from_str(")"), Some(Operator::RBracket));
    assert_eq!(Operator::from_str("%"), None);
    assert_eq!(Operator::from_str("++"), None);
}

#[test]
fn test_operator_precedence() {
    assert_eq!(Operator::Add(Arity::Binary).precedence(), 3);
    assert_eq!(Operator::Substract(Arity::Binary).precedence(), 3);
    assert_eq!(Operator::Multiply.precedence(), 4);
    assert_eq!(Operator::Divide.precedence(), 4);
    assert_eq!(Operator::Function(Function::Sin).precedence(), 5);
    assert_eq!(Operator::Add(Arity::Unary).precedence(), 6);
    assert_eq!(Operator::Substract(Arity::Unary).precedence(), 6);
    assert_eq!(Operator::LBracket.precedence(), 0);
    assert_eq!(Operator::RBracket.precedence(), 0);
}
