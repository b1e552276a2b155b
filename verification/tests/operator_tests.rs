use basic_like::ast::{Expression, OperatorExpression};
use basic_like::tables::VarTable;
use basic_like::value::Value;

fn num(v: i64) -> Expression {
    Expression::Literal(Value::number(v))
}

fn text(s: &str) -> Expression {
    Expression::Literal(Value::string(s.to_string()))
}

fn eval_op(left: Expression, operator: char, right: Expression) -> Value {
    let op_expr = Expression::Operator(OperatorExpression::new(left, operator, right));
    let context = VarTable::new();
    op_expr.evaluate(&context).unwrap()
}

#[test]
fn operator_expr_equals_numbers() {
    let val = eval_op(num(10), '=', num(10));
    assert!(val.is_numeric());
    assert_eq!(val.to_number().unwrap(), 1);
}

#[test]
fn operator_expr_not_equals_numbers() {
    let val = eval_op(num(1), '=', num(2));
    assert_eq!(val.to_number().unwrap(), 0);
}

#[test]
fn operator_expr_equals_number_string() {
    let val = eval_op(num(10), '=', text("10"));
    assert_eq!(val.to_number().unwrap(), 1);
}

#[test]
fn operator_expr_not_equals_number_string() {
    let val = eval_op(num(10), '=', text("11"));
    assert_eq!(val.to_number().unwrap(), 0);
}

#[test]
fn operator_expr_plus_num_num() {
    let val = eval_op(num(10), '+', num(21));
    assert!(val.is_numeric());
    assert_eq!(val.to_number().unwrap(), 31);
}

#[test]
fn operator_expr_plus_str_str() {
    let val = eval_op(text("abc"), '+', text("def"));
    assert!(!val.is_numeric());
    assert_eq!(val.to_text(), "abcdef");
}

#[test]
fn operator_expr_plus_num_str() {
    let val = eval_op(num(10), '+', text("20"));
    assert!(val.is_numeric());
    assert_eq!(val.to_number().unwrap(), 30);
}

#[test]
#[should_panic]
fn operator_expr_plus_num_str_panic() {
    let _ = eval_op(num(10), '+', text("abc"));
}

#[test]
fn operator_expr_plus_str_num() {
    let val = eval_op(text("20"), '+', num(10));
    assert!(!val.is_numeric());
    assert_eq!(val.to_text(), "2010");
}

#[test]
fn operator_expr_minus_num_num() {
    let val = eval_op(num(21), '-', num(10));
    assert!(val.is_numeric());
    assert_eq!(val.to_number().unwrap(), 11);
}

#[test]
fn operator_expr_minus_str_num() {
    let val = eval_op(text("20"), '-', num(10));
    assert_eq!(val.to_number().unwrap(), 10);
}

#[test]
#[should_panic]
fn operator_expr_minus_str_num_fail() {
    let _ = eval_op(text("a20"), '-', num(10));
}

#[test]
fn operator_expr_mul_num_num() {
    let val = eval_op(num(21), '*', num(10));
    assert!(val.is_numeric());
    assert_eq!(val.to_number().unwrap(), 210);
}

#[test]
fn operator_expr_mul_str_num() {
    let val = eval_op(text("20"), '*', num(10));
    assert_eq!(val.to_number().unwrap(), 200);
}

#[test]
#[should_panic]
fn operator_expr_mul_str_num_fail() {
    let _ = eval_op(text("a20"), '*', num(10));
}

#[test]
fn operator_expr_div_num_num() {
    let val = eval_op(num(20), '/', num(10));
    assert!(val.is_numeric());
    assert_eq!(val.to_number().unwrap(), 2);
}

#[test]
fn operator_expr_div_str_num() {
    let val = eval_op(text("20"), '/', num(10));
    assert_eq!(val.to_number().unwrap(), 2);
}

#[test]
#[should_panic]
fn operator_expr_div_str_num_fail() {
    let _ = eval_op(text("a20"), '/', num(10));
}

#[test]
fn operator_expr_less_num_num() {
    let val = eval_op(num(21), '<', num(10));
    assert!(val.is_numeric());
    assert_eq!(val.to_number().unwrap(), 0);
}

#[test]
fn operator_expr_less_num_str() {
    let val = eval_op(num(21), '<', text("10"));
    assert!(val.is_numeric());
    assert_eq!(val.to_number().unwrap(), 0);
}

#[test]
fn operator_expr_less_str_str() {
    let val = eval_op(text("abc"), '<', text("bbc"));
    assert!(val.is_numeric());
    assert_eq!(val.to_number().unwrap(), 1);
}

#[test]
fn operator_expr_greater_num_str() {
    let val = eval_op(num(21), '>', text("10"));
    assert!(val.is_numeric());
    assert_eq!(val.to_number().unwrap(), 1);
}

#[test]
fn operator_expr_greater_str_str() {
    let val = eval_op(text("abc"), '>', text("bbc"));
    assert!(val.is_numeric());
    assert_eq!(val.to_number().unwrap(), 0);
}
