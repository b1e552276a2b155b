//! The expression tree and the statement set, with their mathematical
//! views and the verified expression evaluator.

use vstd::prelude::*;
use crate::tables::VarTable;
use crate::value::{RunError, SpecRunError, SpecValue, Value, apply_op, spec_apply_op,
    value_result_view};

verus! {

/// The mathematical content of an expression node.
pub ghost enum SpecExpr {
    Literal(SpecValue),
    Variable(Seq<char>),
    Operator(Box<SpecExpr>, char, Box<SpecExpr>),
}

/// A reference to a variable by name.
#[derive(Debug)]
pub struct VariableExpression {
    pub name: String,
}

impl VariableExpression {
    pub fn new(name: String) -> (r: Self)
        ensures
            r.name == name,
    {
        Self { name }
    }
}

/// A binary operation; the operator is its single character.
#[derive(Debug)]
pub struct OperatorExpression {
    pub left: Box<Expression>,
    pub operator: char,
    pub right: Box<Expression>,
}

impl OperatorExpression {
    pub fn new(left: Expression, operator: char, right: Expression) -> (r: Self)
        ensures
            r.left == left,
            r.operator == operator,
            r.right == right,
    {
        Self { left: Box::new(left), operator, right: Box::new(right) }
    }
}

/// An expression node: a literal value, a variable reference, or a binary
/// operation. Each variant owns its children outright.
#[derive(Debug)]
pub enum Expression {
    Literal(Value),
    Variable(VariableExpression),
    Operator(OperatorExpression),
}

pub open spec fn expr_view(e: Expression) -> SpecExpr
    decreases e,
{
    match e {
        Expression::Literal(v) => SpecExpr::Literal(v@),
        Expression::Variable(v) => SpecExpr::Variable(v.name@),
        Expression::Operator(o) => SpecExpr::Operator(
            Box::new(expr_view(*o.left)),
            o.operator,
            Box::new(expr_view(*o.right)),
        ),
    }
}

impl View for Expression {
    type V = SpecExpr;

    open spec fn view(&self) -> SpecExpr {
        expr_view(*self)
    }
}

/// What an expression evaluates to under the given variables: literals are
/// themselves, an unassigned variable reads as the number zero, and a
/// binary operation evaluates its left operand, then its right, then
/// applies the operator.
pub open spec fn spec_eval(e: SpecExpr, vars: Map<Seq<char>, SpecValue>) -> Result<
    SpecValue,
    SpecRunError,
>
    decreases e,
{
    match e {
        SpecExpr::Literal(v) => Ok(v),
        SpecExpr::Variable(name) => Ok(
            if vars.contains_key(name) {
                vars[name]
            } else {
                SpecValue::Num(0)
            },
        ),
        SpecExpr::Operator(l, op, r) => match spec_eval(*l, vars) {
            Ok(lv) => match spec_eval(*r, vars) {
                Ok(rv) => spec_apply_op(op, lv, rv),
                Err(e2) => Err(e2),
            },
            Err(e1) => Err(e1),
        },
    }
}

impl Expression {
    /// Evaluates the expression against the variables, exactly as
    /// `spec_eval` reads it. Pure: the context is only read.
    pub fn evaluate(&self, vars: &VarTable) -> (r: Result<Value, RunError>)
        requires
            vars.wf(),
        ensures
            value_result_view(r) == spec_eval(self@, vars@),
        decreases *self,
    {
        match self {
            Expression::Literal(v) => Ok(v.clone()),
            Expression::Variable(ve) => match vars.get(ve.name.as_str()) {
                Some(v) => Ok(v.clone()),
                None => Ok(Value::Number(0)),
            },
            Expression::Operator(o) => {
                let lv = match o.left.evaluate(vars) {
                    Ok(v) => v,
                    Err(e) => return Err(e),
                };
                let rv = match o.right.evaluate(vars) {
                    Ok(v) => v,
                    Err(e) => return Err(e),
                };
                apply_op(o.operator, &lv, &rv)
            },
        }
    }
}

/// The mathematical content of a statement.
pub ghost enum SpecStmt {
    Assign { name: Seq<char>, value: SpecExpr },
    IfThen { condition: SpecExpr, label: Seq<char> },
    Goto { label: Seq<char> },
    Print { expression: SpecExpr },
    Input { name: Seq<char> },
}

/// One statement of a program: an assignment, a conditional jump, a jump,
/// a print, or a read.
#[derive(Debug)]
pub enum Statement {
    Assign { name: String, value: Expression },
    IfThen { condition: Expression, label: String },
    Goto { label: String },
    Print { expression: Expression },
    Input { name: String },
}

pub open spec fn stmt_view(s: Statement) -> SpecStmt {
    match s {
        Statement::Assign { name, value } => SpecStmt::Assign { name: name@, value: value@ },
        Statement::IfThen { condition, label } => SpecStmt::IfThen {
            condition: condition@,
            label: label@,
        },
        Statement::Goto { label } => SpecStmt::Goto { label: label@ },
        Statement::Print { expression } => SpecStmt::Print { expression: expression@ },
        Statement::Input { name } => SpecStmt::Input { name: name@ },
    }
}

impl View for Statement {
    type V = SpecStmt;

    open spec fn view(&self) -> SpecStmt {
        stmt_view(*self)
    }
}

impl Statement {
    pub fn assign(name: String, value: Expression) -> (r: Self)
        ensures
            r@ == (SpecStmt::Assign { name: name@, value: value@ }),
    {
        Self::Assign { name, value }
    }

    pub fn goto(label: String) -> (r: Self)
        ensures
            r@ == (SpecStmt::Goto { label: label@ }),
    {
        Self::Goto { label }
    }

    pub fn if_then(condition: Expression, label: String) -> (r: Self)
        ensures
            r@ == (SpecStmt::IfThen { condition: condition@, label: label@ }),
    {
        Self::IfThen { condition, label }
    }

    pub fn input(name: String) -> (r: Self)
        ensures
            r@ == (SpecStmt::Input { name: name@ }),
    {
        Self::Input { name }
    }

    pub fn print(expression: Expression) -> (r: Self)
        ensures
            r@ == (SpecStmt::Print { expression: expression@ }),
    {
        Self::Print { expression }
    }
}

} // verus!
