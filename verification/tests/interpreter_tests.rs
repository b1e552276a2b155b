use basic_like::ast::{Expression, OperatorExpression, Statement, VariableExpression};
use basic_like::interpreter::{InterpreterContext, RunStatus, StepOutcome, interpret};
use basic_like::parser::{ParseError, Parser};
use basic_like::tables::VarTable;
use basic_like::token::TokenType;
use basic_like::tokenizer::Tokenizer;
use basic_like::value::{RunError, Value};

fn outputs_of(source: &str, inputs: Vec<String>) -> Vec<String> {
    let result = interpret(source, inputs, 10_000).unwrap();
    assert!(matches!(result.status, RunStatus::Finished));
    result.outputs
}

#[test]
fn label_forward_reference() {
    let outputs = outputs_of("goto skip\nx = 1\nskip:\nprint x", vec![]);
    assert_eq!(outputs, vec!["0"]);
}

#[test]
fn unresolved_goto_is_silent() {
    let outputs = outputs_of("goto nowhere\nprint 1", vec![]);
    assert_eq!(outputs, vec!["1"]);
}

#[test]
fn uninitialized_variable_reads_as_zero() {
    let vars = VarTable::new();
    let expr = Expression::Variable(VariableExpression::new("z".to_string()));
    let val = expr.evaluate(&vars).unwrap();
    assert!(val.is_numeric());
    assert_eq!(val.to_number().unwrap(), 0);
}

#[test]
fn coercion_error_is_fatal() {
    let expr = Expression::Operator(OperatorExpression::new(
        Expression::Literal(Value::string("abc".to_string())),
        '-',
        Expression::Literal(Value::number(1)),
    ));
    let vars = VarTable::new();
    let err = expr.evaluate(&vars).unwrap_err();
    assert!(matches!(err, RunError::Coercion { .. }));
}

#[test]
fn straight_line_program_runs_each_statement_once() {
    let result = interpret("x = 1\ny = 2\nprint x + y", vec![], 10_000).unwrap();
    assert!(matches!(result.status, RunStatus::Finished));
    assert_eq!(result.steps, 3);
    assert_eq!(result.outputs, vec!["3"]);
}

#[test]
fn backward_goto_loops_until_out_of_steps() {
    let result = interpret("top:\ngoto top", vec![], 10).unwrap();
    assert!(matches!(result.status, RunStatus::OutOfSteps));
    assert_eq!(result.steps, 10);
}

#[test]
fn if_then_jumps_on_nonzero() {
    let outputs = outputs_of("x = 5\nif x > 2 then yes\nprint 0\nyes:\nprint 1", vec![]);
    assert_eq!(outputs, vec!["1"]);
}

#[test]
fn if_then_falls_through_on_zero() {
    let outputs = outputs_of("x = 1\nif x > 2 then yes\nprint 0\nyes:\nprint 1", vec![]);
    assert_eq!(outputs, vec!["0", "1"]);
}

#[test]
fn if_with_unresolved_label_is_silent() {
    let outputs = outputs_of("if 1 then nowhere\nprint 7", vec![]);
    assert_eq!(outputs, vec!["7"]);
}

#[test]
fn later_label_definition_overwrites_earlier() {
    let outputs = outputs_of("goto l\nl:\nprint 1\nl:\nprint 2", vec![]);
    assert_eq!(outputs, vec!["2"]);
}

#[test]
fn input_line_parses_as_number() {
    let outputs = outputs_of("input x\nprint x + 1", vec!["41\n".to_string()]);
    assert_eq!(outputs, vec!["42"]);
}

#[test]
fn input_line_falls_back_to_text() {
    let outputs = outputs_of("input x\nprint x", vec!["hello".to_string()]);
    assert_eq!(outputs, vec!["hello"]);
}

#[test]
fn missing_input_reports_awaiting() {
    let result = interpret("input x\nprint x", vec![], 10_000).unwrap();
    assert!(matches!(result.status, RunStatus::AwaitingInput));
    assert_eq!(result.steps, 0);
}

#[test]
fn division_by_zero_stops_the_run() {
    let result = interpret("print 1 / 0", vec![], 10_000).unwrap();
    assert!(matches!(result.status, RunStatus::Failed(RunError::DivideByZero)));
}

#[test]
fn overflow_stops_the_run() {
    let result = interpret("print 9223372036854775807 + 1", vec![], 10_000).unwrap();
    assert!(matches!(result.status, RunStatus::Failed(RunError::Overflow)));
}

#[test]
fn unknown_operator_is_an_error() {
    let expr = Expression::Operator(OperatorExpression::new(
        Expression::Literal(Value::number(1)),
        '%',
        Expression::Literal(Value::number(2)),
    ));
    let vars = VarTable::new();
    let err = expr.evaluate(&vars).unwrap_err();
    assert!(matches!(err, RunError::UnknownOperator { operator: '%' }));
}

#[test]
fn negative_number_prints_with_sign() {
    let outputs = outputs_of("print 0 - 5", vec![]);
    assert_eq!(outputs, vec!["-5"]);
}

#[test]
fn parentheses_group_subexpressions() {
    let outputs = outputs_of("print (1 + 2) * 3", vec![]);
    assert_eq!(outputs, vec!["9"]);
}

#[test]
fn chain_folds_left_to_right() {
    let outputs = outputs_of("print 2 + 3 * 4", vec![]);
    assert_eq!(outputs, vec!["20"]);
}

#[test]
fn unclosed_parenthesis_is_a_parse_error() {
    let err = interpret("print (1", vec![], 10_000).unwrap_err();
    assert_eq!(err, ParseError::Expected(TokenType::CloseParenthesis));
}

#[test]
fn goto_without_word_is_a_parse_error() {
    let err = interpret("goto 5", vec![], 10_000).unwrap_err();
    assert_eq!(err, ParseError::Expected(TokenType::Word));
}

#[test]
fn if_without_keyword_is_a_parse_error() {
    let err = interpret("if 1 foo", vec![], 10_000).unwrap_err();
    assert_eq!(err, ParseError::ExpectedThen);
}

#[test]
fn missing_atomic_is_a_parse_error() {
    let err = interpret("print )", vec![], 10_000).unwrap_err();
    assert_eq!(err, ParseError::UnexpectedToken);
}

#[test]
fn oversized_literal_is_a_parse_error() {
    let err = interpret("print 99999999999999999999", vec![], 10_000).unwrap_err();
    assert_eq!(err, ParseError::NumberTooLarge);
}

#[test]
fn left_type_dispatch_examples() {
    let outputs = outputs_of("print 10 + \"5\"\nprint \"5\" + 10\nprint 10 = \"10\"", vec![]);
    assert_eq!(outputs, vec!["15", "510", "1"]);
}

#[test]
fn text_coercion_of_values() {
    assert_eq!(Value::number(15).to_text(), "15");
    assert_eq!(Value::string("510".to_string()).to_text(), "510");
    assert_eq!(Value::with_bool(true).to_number().unwrap(), 1);
    assert_eq!(Value::with_bool(false).to_number().unwrap(), 0);
    assert_eq!(Value::string("-12".to_string()).to_number().unwrap(), -12);
}

#[test]
fn context_stores_variables_and_labels() {
    let mut context = InterpreterContext::new();
    assert!(context.variable("x").is_none());
    context.put_variable("x".to_string(), Value::number(3));
    assert_eq!(context.variable("x").unwrap().to_number().unwrap(), 3);
    context.put_variable("x".to_string(), Value::number(4));
    assert_eq!(context.variable("x").unwrap().to_number().unwrap(), 4);
    assert!(context.label("l").is_none());
    context.put_label("l".to_string(), 2);
    assert_eq!(context.label("l").unwrap(), 2);
    assert_eq!(context.statements_count(), 0);
    context.put_statement(Statement::print(Expression::Literal(Value::number(1))));
    assert_eq!(context.statements_count(), 1);
}

#[test]
fn step_reports_each_outcome() {
    let mut tokenizer = Tokenizer::new();
    let tokens = tokenizer.tokenize("input x\nprint x");
    let mut parser = Parser::new(tokens);
    let mut context = parser.parse().unwrap();
    assert!(context.needs_input());
    assert!(matches!(context.step(None).unwrap(), StepOutcome::NeedsInput));
    assert!(matches!(context.step(Some("9".to_string())).unwrap(), StepOutcome::Ran));
    match context.step(None).unwrap() {
        StepOutcome::Printed(line) => assert_eq!(line, "9"),
        other => panic!("unexpected outcome {:?}", other),
    }
    assert!(matches!(context.step(None).unwrap(), StepOutcome::Done));
}
