//! The operators of the language on runtime values. Each checks the kinds
//! of its operands and reports the first operand of a wrong kind.
use crate::err_lox::{ErrorLox, ErrorView};
use crate::runtime::lox_variable::{
    group_values, spec_value_error, LoxVariable, LoxVariableType, Number, TypeView, ValueView,
};
use crate::runtime::number::{
    ask, host_answers, host_ready, AnswerView, Answers, NumberAnswer, NumberComparison, NumberOp,
    NumberRequest, RequestView,
};
use vstd::prelude::*;

verus! {

broadcast use group_values;

/// The value of kind `kind` that an operator makes from the operand
/// `left`: it is bound to no name and comes from where `left` came from.
pub open spec fn spec_result_of(left: ValueView, kind: TypeView) -> ValueView {
    ValueView { identifier: None, variable_type: kind, ref_token: left.ref_token }
}

/// What an arithmetic operator makes of the host's answer: the number, as
/// a value that comes from where the operand `left` came from. Any answer
/// but a number is an error.
pub open spec fn spec_arithmetic_result(left: ValueView, answer: AnswerView) -> Result<
    ValueView,
    ErrorView,
> {
    match answer {
        AnswerView::Number(n) => Ok(spec_result_of(left, TypeView::Number(n))),
        _ => Err(spec_value_error(left, "The host did not compute"@)),
    }
}

/// What a comparison makes of the host's answer: the truth value. Any
/// answer but a truth value is an error.
pub open spec fn spec_comparison_result(left: ValueView, answer: AnswerView) -> Result<
    ValueView,
    ErrorView,
> {
    match answer {
        AnswerView::Bool(b) => Ok(spec_result_of(left, TypeView::Bool(b))),
        _ => Err(spec_value_error(left, "The host did not compute"@)),
    }
}

/// What the negation of a number makes of the host's answer: the number,
/// under the name and with the origin of the operand.
pub open spec fn spec_negation_result(variable: ValueView, answer: AnswerView) -> Result<
    ValueView,
    ErrorView,
> {
    match answer {
        AnswerView::Number(m) => Ok(ValueView { variable_type: TypeView::Number(m), ..variable }),
        _ => Err(spec_value_error(variable, "The host did not compute"@)),
    }
}

/// An arithmetic operator on two values: both are numbers, and the host
/// computes.
pub open spec fn spec_lox_arithmetic(
    answers: Answers,
    op: NumberOp,
    left: ValueView,
    right: ValueView,
) -> Result<ValueView, ErrorView> {
    match left.variable_type {
        TypeView::Number(l) => match right.variable_type {
            TypeView::Number(r) => spec_arithmetic_result(
                left,
                answers(RequestView::Binary(op, l, r)),
            ),
            _ => Err(spec_value_error(right, "Expected NUMBER type for right operand"@)),
        },
        _ => Err(spec_value_error(left, "Expected NUMBER type for left operand"@)),
    }
}

/// A comparison of two values: both are numbers, and the host compares.
pub open spec fn spec_lox_comparison(
    answers: Answers,
    op: NumberComparison,
    left: ValueView,
    right: ValueView,
) -> Result<ValueView, ErrorView> {
    match left.variable_type {
        TypeView::Number(l) => match right.variable_type {
            TypeView::Number(r) => spec_comparison_result(
                left,
                answers(RequestView::Compare(op, l, r)),
            ),
            _ => Err(spec_value_error(right, "Expected NUMBER type for right operand"@)),
        },
        _ => Err(spec_value_error(left, "Expected NUMBER type for left operand"@)),
    }
}

/// `+`: the sum of two numbers, or two strings one behind the other.
pub open spec fn spec_lox_add(answers: Answers, left: ValueView, right: ValueView) -> Result<
    ValueView,
    ErrorView,
> {
    match left.variable_type {
        TypeView::Number(_) => spec_lox_arithmetic(answers, NumberOp::Add, left, right),
        TypeView::Str(l) => match right.variable_type {
            TypeView::Str(r) => Ok(spec_result_of(left, TypeView::Str(l + r))),
            _ => Err(spec_value_error(right, "Expected STRING type for right operand"@)),
        },
        _ => Err(spec_value_error(left, "Expected NUMBER or STRING type for left operand"@)),
    }
}

/// `==`: on two numbers, two strings or two truth values.
pub open spec fn spec_lox_equal_equal(
    answers: Answers,
    left: ValueView,
    right: ValueView,
) -> Result<ValueView, ErrorView> {
    match left.variable_type {
        TypeView::Number(_) => spec_lox_comparison(answers, NumberComparison::Equal, left, right),
        TypeView::Str(l) => match right.variable_type {
            TypeView::Str(r) => Ok(spec_result_of(left, TypeView::Bool(l == r))),
            _ => Err(spec_value_error(right, "Expected STRING type for right operand"@)),
        },
        TypeView::Bool(l) => match right.variable_type {
            TypeView::Bool(r) => Ok(spec_result_of(left, TypeView::Bool(l == r))),
            _ => Err(spec_value_error(right, "Expected BOOL type for right operand"@)),
        },
        _ => Err(
            spec_value_error(left, "Expected NUMBER or STRING or BOOL type for left operand"@),
        ),
    }
}

/// Negation: of a number by the host, of a truth value here. The result
/// keeps the name and the origin of the operand.
pub open spec fn spec_lox_negate(answers: Answers, variable: ValueView) -> Result<
    ValueView,
    ErrorView,
> {
    match variable.variable_type {
        TypeView::Number(n) => spec_negation_result(variable, answers(RequestView::Negate(n))),
        TypeView::Bool(b) => Ok(ValueView { variable_type: TypeView::Bool(!b), ..variable }),
        _ => Err(spec_value_error(variable, "lox_negate: expected NUMBER or BOOL"@)),
    }
}

/// `!=`: the negation of `==`.
pub open spec fn spec_lox_bang_equal(answers: Answers, left: ValueView, right: ValueView) -> Result<
    ValueView,
    ErrorView,
> {
    match spec_lox_equal_equal(answers, left, right) {
        Ok(equal) => spec_lox_negate(answers, equal),
        Err(e) => Err(e),
    }
}

/// The operators that stand between two operands.
#[derive(Clone, Copy, Debug, PartialEq, Eq, Structural)]
pub enum BinaryOperator {
    Add,
    Minus,
    Multiply,
    Divide,
    Modula,
    Greater,
    GreaterEqual,
    EqualEqual,
    BangEqual,
    Less,
    LessEqual,
}

/// What a binary operator makes of two values.
pub open spec fn spec_apply(
    answers: Answers,
    operator: BinaryOperator,
    left: ValueView,
    right: ValueView,
) -> Result<ValueView, ErrorView> {
    match operator {
        BinaryOperator::Add => spec_lox_add(answers, left, right),
        BinaryOperator::Minus => spec_lox_arithmetic(answers, NumberOp::Subtract, left, right),
        BinaryOperator::Multiply => spec_lox_arithmetic(answers, NumberOp::Multiply, left, right),
        BinaryOperator::Divide => spec_lox_arithmetic(answers, NumberOp::Divide, left, right),
        BinaryOperator::Modula => spec_lox_arithmetic(answers, NumberOp::Modulo, left, right),
        BinaryOperator::Greater => spec_lox_comparison(
            answers,
            NumberComparison::Greater,
            left,
            right,
        ),
        BinaryOperator::GreaterEqual => spec_lox_comparison(
            answers,
            NumberComparison::GreaterEqual,
            left,
            right,
        ),
        BinaryOperator::EqualEqual => spec_lox_equal_equal(answers, left, right),
        BinaryOperator::BangEqual => spec_lox_bang_equal(answers, left, right),
        BinaryOperator::Less => spec_lox_comparison(answers, NumberComparison::Less, left, right),
        BinaryOperator::LessEqual => spec_lox_comparison(
            answers,
            NumberComparison::LessEqual,
            left,
            right,
        ),
    }
}

/// Whether a result and its mathematical value agree.
pub open spec fn result_agrees(
    r: Result<LoxVariable, ErrorLox>,
    v: Result<ValueView, ErrorView>,
) -> bool {
    match v {
        Ok(value) => r is Ok && r->Ok_0@ == value,
        Err(e) => r is Err && r->Err_0@ == e,
    }
}

/// Makes the result of an arithmetic operator from the host's answer.
pub fn arithmetic_result(left: &LoxVariable, answer: NumberAnswer) -> (r: Result<
    LoxVariable,
    ErrorLox,
>)
    ensures
        result_agrees(r, spec_arithmetic_result(left@, answer@)),
{
    match answer {
        NumberAnswer::Number(n) => Ok(
            LoxVariable::new(None, LoxVariableType::NUMBER(n), left.get_ref_node()),
        ),
        _ => Err(ErrorLox::from_lox_variable(left, "The host did not compute")),
    }
}

/// Makes the result of a comparison from the host's answer.
pub fn comparison_result(left: &LoxVariable, answer: NumberAnswer) -> (r: Result<
    LoxVariable,
    ErrorLox,
>)
    ensures
        result_agrees(r, spec_comparison_result(left@, answer@)),
{
    match answer {
        NumberAnswer::Bool(b) => Ok(
            LoxVariable::new(None, LoxVariableType::BOOL(b), left.get_ref_node()),
        ),
        _ => Err(ErrorLox::from_lox_variable(left, "The host did not compute")),
    }
}

/// Makes the negation of a number from the host's answer.
pub fn negation_result(variable: &LoxVariable, answer: NumberAnswer) -> (r: Result<
    LoxVariable,
    ErrorLox,
>)
    ensures
        result_agrees(r, spec_negation_result(variable@, answer@)),
{
    match answer {
        NumberAnswer::Number(m) => Ok(
            LoxVariable::new(
                variable.get_identifier(),
                LoxVariableType::NUMBER(m),
                variable.get_ref_node(),
            ),
        ),
        _ => Err(ErrorLox::from_lox_variable(variable, "The host did not compute")),
    }
}

fn lox_arithmetic<H: Fn(NumberRequest) -> NumberAnswer>(
    host: &H,
    op: NumberOp,
    left: &LoxVariable,
    right: &LoxVariable,
) -> (r: Result<LoxVariable, ErrorLox>)
    requires
        host_ready(host),
    ensures
        result_agrees(r, spec_lox_arithmetic(host_answers(host), op, left@, right@)),
{
    match &left.variable_type {
        LoxVariableType::NUMBER(l) => {
            match &right.variable_type {
                LoxVariableType::NUMBER(num) => arithmetic_result(
                    left,
                    ask(host, NumberRequest::Binary(op, *l, *num)),
                ),
                _ => Err(
                    ErrorLox::from_lox_variable(right, "Expected NUMBER type for right operand"),
                ),
            }
        },
        _ => Err(ErrorLox::from_lox_variable(left, "Expected NUMBER type for left operand")),
    }
}

fn lox_comparison<H: Fn(NumberRequest) -> NumberAnswer>(
    host: &H,
    op: NumberComparison,
    left: &LoxVariable,
    right: &LoxVariable,
) -> (r: Result<LoxVariable, ErrorLox>)
    requires
        host_ready(host),
    ensures
        result_agrees(r, spec_lox_comparison(host_answers(host), op, left@, right@)),
{
    match &left.variable_type {
        LoxVariableType::NUMBER(l) => {
            match &right.variable_type {
                LoxVariableType::NUMBER(num) => comparison_result(
                    left,
                    ask(host, NumberRequest::Compare(op, *l, *num)),
                ),
                _ => Err(
                    ErrorLox::from_lox_variable(right, "Expected NUMBER type for right operand"),
                ),
            }
        },
        _ => Err(ErrorLox::from_lox_variable(left, "Expected NUMBER type for left operand")),
    }
}

pub fn lox_add<H: Fn(NumberRequest) -> NumberAnswer>(
    host: &H,
    left: &LoxVariable,
    right: &LoxVariable,
) -> (r: Result<LoxVariable, ErrorLox>)
    requires
        host_ready(host),
    ensures
        result_agrees(r, spec_lox_add(host_answers(host), left@, right@)),
{
    match &left.variable_type {
        LoxVariableType::NUMBER(_) => lox_arithmetic(host, NumberOp::Add, left, right),
        LoxVariableType::STRING(l) => {
            match &right.variable_type {
                LoxVariableType::STRING(r) => {
                    let mut joined = l.clone();
                    joined.append(r.as_str());
                    Ok(LoxVariable::new(None, LoxVariableType::STRING(joined), left.get_ref_node()))
                },
                _ => Err(
                    ErrorLox::from_lox_variable(right, "Expected STRING type for right operand"),
                ),
            }
        },
        _ => Err(
            ErrorLox::from_lox_variable(left, "Expected NUMBER or STRING type for left operand"),
        ),
    }
}

pub fn lox_minus<H: Fn(NumberRequest) -> NumberAnswer>(
    host: &H,
    left: &LoxVariable,
    right: &LoxVariable,
) -> (r: Result<LoxVariable, ErrorLox>)
    requires
        host_ready(host),
    ensures
        result_agrees(
            r,
            spec_lox_arithmetic(host_answers(host), NumberOp::Subtract, left@, right@),
        ),
{
    lox_arithmetic(host, NumberOp::Subtract, left, right)
}

pub fn lox_multiply<H: Fn(NumberRequest) -> NumberAnswer>(
    host: &H,
    left: &LoxVariable,
    right: &LoxVariable,
) -> (r: Result<LoxVariable, ErrorLox>)
    requires
        host_ready(host),
    ensures
        result_agrees(
            r,
            spec_lox_arithmetic(host_answers(host), NumberOp::Multiply, left@, right@),
        ),
{
    lox_arithmetic(host, NumberOp::Multiply, left, right)
}

pub fn lox_divide<H: Fn(NumberRequest) -> NumberAnswer>(
    host: &H,
    left: &LoxVariable,
    right: &LoxVariable,
) -> (r: Result<LoxVariable, ErrorLox>)
    requires
        host_ready(host),
    ensures
        result_agrees(r, spec_lox_arithmetic(host_answers(host), NumberOp::Divide, left@, right@)),
{
    lox_arithmetic(host, NumberOp::Divide, left, right)
}

pub fn lox_modula<H: Fn(NumberRequest) -> NumberAnswer>(
    host: &H,
    left: &LoxVariable,
    right: &LoxVariable,
) -> (r: Result<LoxVariable, ErrorLox>)
    requires
        host_ready(host),
    ensures
        result_agrees(r, spec_lox_arithmetic(host_answers(host), NumberOp::Modulo, left@, right@)),
{
    lox_arithmetic(host, NumberOp::Modulo, left, right)
}

pub fn lox_greater<H: Fn(NumberRequest) -> NumberAnswer>(
    host: &H,
    left: &LoxVariable,
    right: &LoxVariable,
) -> (r: Result<LoxVariable, ErrorLox>)
    requires
        host_ready(host),
    ensures
        result_agrees(
            r,
            spec_lox_comparison(host_answers(host), NumberComparison::Greater, left@, right@),
        ),
{
    lox_comparison(host, NumberComparison::Greater, left, right)
}

pub fn lox_greater_equal<H: Fn(NumberRequest) -> NumberAnswer>(
    host: &H,
    left: &LoxVariable,
    right: &LoxVariable,
) -> (r: Result<LoxVariable, ErrorLox>)
    requires
        host_ready(host),
    ensures
        result_agrees(
            r,
            spec_lox_comparison(host_answers(host), NumberComparison::GreaterEqual, left@, right@),
        ),
{
    lox_comparison(host, NumberComparison::GreaterEqual, left, right)
}

pub fn lox_less<H: Fn(NumberRequest) -> NumberAnswer>(
    host: &H,
    left: &LoxVariable,
    right: &LoxVariable,
) -> (r: Result<LoxVariable, ErrorLox>)
    requires
        host_ready(host),
    ensures
        result_agrees(
            r,
            spec_lox_comparison(host_answers(host), NumberComparison::Less, left@, right@),
        ),
{
    lox_comparison(host, NumberComparison::Less, left, right)
}

pub fn lox_less_equal<H: Fn(NumberRequest) -> NumberAnswer>(
    host: &H,
    left: &LoxVariable,
    right: &LoxVariable,
) -> (r: Result<LoxVariable, ErrorLox>)
    requires
        host_ready(host),
    ensures
        result_agrees(
            r,
            spec_lox_comparison(host_answers(host), NumberComparison::LessEqual, left@, right@),
        ),
{
    lox_comparison(host, NumberComparison::LessEqual, left, right)
}

pub fn lox_equal_equal<H: Fn(NumberRequest) -> NumberAnswer>(
    host: &H,
    left: &LoxVariable,
    right: &LoxVariable,
) -> (r: Result<LoxVariable, ErrorLox>)
    requires
        host_ready(host),
    ensures
        result_agrees(r, spec_lox_equal_equal(host_answers(host), left@, right@)),
{
    match &left.variable_type {
        LoxVariableType::NUMBER(_) => lox_comparison(host, NumberComparison::Equal, left, right),
        LoxVariableType::STRING(l) => {
            match &right.variable_type {
                LoxVariableType::STRING(r) => Ok(
                    LoxVariable::new(None, LoxVariableType::BOOL(*l == *r), left.get_ref_node()),
                ),
                _ => Err(
                    ErrorLox::from_lox_variable(right, "Expected STRING type for right operand"),
                ),
            }
        },
        LoxVariableType::BOOL(l) => {
            match &right.variable_type {
                LoxVariableType::BOOL(r) => Ok(
                    LoxVariable::new(None, LoxVariableType::BOOL(*l == *r), left.get_ref_node()),
                ),
                _ => Err(
                    ErrorLox::from_lox_variable(right, "Expected BOOL type for right operand"),
                ),
            }
        },
        _ => Err(
            ErrorLox::from_lox_variable(
                left,
                "Expected NUMBER or STRING or BOOL type for left operand",
            ),
        ),
    }
}

pub fn lox_negate<H: Fn(NumberRequest) -> NumberAnswer>(host: &H, variable: &LoxVariable) -> (r:
    Result<LoxVariable, ErrorLox>)
    requires
        host_ready(host),
    ensures
        result_agrees(r, spec_lox_negate(host_answers(host), variable@)),
{
    match &variable.variable_type {
        LoxVariableType::NUMBER(n) => negation_result(
            variable,
            ask(host, NumberRequest::Negate(*n)),
        ),
        LoxVariableType::BOOL(b) => Ok(
            LoxVariable::new(
                variable.get_identifier(),
                LoxVariableType::BOOL(!*b),
                variable.get_ref_node(),
            ),
        ),
        _ => Err(ErrorLox::from_lox_variable(variable, "lox_negate: expected NUMBER or BOOL")),
    }
}

/// Applies a binary operator to two values.
pub fn apply<H: Fn(NumberRequest) -> NumberAnswer>(
    host: &H,
    operator: BinaryOperator,
    left: &LoxVariable,
    right: &LoxVariable,
) -> (r: Result<LoxVariable, ErrorLox>)
    requires
        host_ready(host),
    ensures
        result_agrees(r, spec_apply(host_answers(host), operator, left@, right@)),
{
    match operator {
        BinaryOperator::Add => lox_add(host, left, right),
        BinaryOperator::Minus => lox_minus(host, left, right),
        BinaryOperator::Multiply => lox_multiply(host, left, right),
        BinaryOperator::Divide => lox_divide(host, left, right),
        BinaryOperator::Modula => lox_modula(host, left, right),
        BinaryOperator::Greater => lox_greater(host, left, right),
        BinaryOperator::GreaterEqual => lox_greater_equal(host, left, right),
        BinaryOperator::EqualEqual => lox_equal_equal(host, left, right),
        BinaryOperator::BangEqual => {
            match lox_equal_equal(host, left, right) {
                Ok(equal) => lox_negate(host, &equal),
                Err(e) => Err(e),
            }
        },
        BinaryOperator::Less => lox_less(host, left, right),
        BinaryOperator::LessEqual => lox_less_equal(host, left, right),
    }
}

} // verus!
