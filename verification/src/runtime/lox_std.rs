//! The standard library: what the base scope of a program binds.
use crate::display::{decimal, spec_decimal};
use crate::err_lox::{ErrorLox, ErrorView};
use crate::runtime::lox_variable::{
    group_values, spec_tuple_length, spec_value_error, value_views, LoxVariable,
    LoxVariableType, Number, StdFunction, TypeView, ValueView,
};
use crate::runtime::number::{
    ask, host_answers, host_ready, AnswerView, Answers, NumberAnswer, NumberRequest, RequestView,
};
use crate::runtime::operators::result_agrees;
use vstd::prelude::*;

verus! {

broadcast use group_values;

/// The bits of the double nearest to the circle constant.
pub const PI_BITS: u64 = 0x400921FB54442D18;

/// How a value is written, or nothing where the host does not say how a
/// number is written. A tuple is written as its members between
/// parentheses, separated by a comma and a blank; the empty tuple as a
/// closing parenthesis alone.
pub open spec fn spec_to_string(answers: Answers, v: ValueView) -> Option<Seq<char>>
    decreases v, 0nat,
{
    match v.variable_type {
        TypeView::Nothing => Some(Seq::empty()),
        TypeView::Bool(b) => Some(
            if b {
                "true"@
            } else {
                "false"@
            },
        ),
        TypeView::Number(n) => match answers(RequestView::Format(n)) {
            AnswerView::Text(text) => Some(text),
            _ => None,
        },
        TypeView::StdFunction(_) => Some("STD FUNCTION"@),
        TypeView::LoxFunction(_) => Some("LOX FUNCTION"@),
        TypeView::Str(s) => Some(s),
        TypeView::Tuple(items) => if items.len() == 0 {
            Some(")"@)
        } else {
            match spec_joined(answers, items, items.len() as int) {
                Some(inner) => Some("("@ + inner + ")"@),
                None => None,
            }
        },
    }
}

/// The first `k` members of a tuple as they are written, separated by a
/// comma and a blank.
pub open spec fn spec_joined(answers: Answers, items: Seq<ValueView>, k: int) -> Option<Seq<char>>
    decreases items, k,
{
    if k <= 0 || k > items.len() {
        Some(Seq::empty())
    } else {
        match spec_to_string(answers, items[k - 1]) {
            None => None,
            Some(last) => if k == 1 {
                Some(last)
            } else {
                match spec_joined(answers, items, k - 1) {
                    Some(before) => Some(before + ", "@ + last),
                    None => None,
                }
            },
        }
    }
}

/// The first `k` members of a tuple as they are written, one behind the
/// other.
pub open spec fn spec_line(answers: Answers, items: Seq<ValueView>, k: int) -> Option<Seq<char>>
    decreases k,
{
    if k <= 0 || k > items.len() {
        Some(Seq::empty())
    } else {
        match (spec_line(answers, items, k - 1), spec_to_string(answers, items[k - 1])) {
            (Some(before), Some(last)) => Some(before + last),
            _ => None,
        }
    }
}

/// The message for a call with the wrong number of arguments.
pub open spec fn spec_wrong_count(expected: nat, found: nat) -> Seq<char> {
    "Expected "@ + spec_decimal(expected) + " arguments, found "@ + spec_decimal(found)
}

/// The string value that says how `v` is written.
pub open spec fn spec_lox_to_string(answers: Answers, v: ValueView) -> Result<
    ValueView,
    ErrorView,
> {
    match spec_to_string(answers, v) {
        Some(text) => Ok(
            ValueView {
                identifier: None,
                variable_type: TypeView::Str(text),
                ref_token: v.ref_token,
            },
        ),
        None => Err(spec_value_error(v, "The host did not compute"@)),
    }
}

/// What `print` does with its arguments: the line that it writes, or the
/// error.
pub open spec fn spec_print_lox(answers: Answers, input: ValueView) -> Result<
    Seq<char>,
    ErrorView,
> {
    match input.variable_type {
        TypeView::Tuple(items) => match spec_line(answers, items, items.len() as int) {
            Some(line) => Ok(line),
            None => Err(spec_value_error(input, "Failed type conversion to String"@)),
        },
        _ => Err(spec_value_error(input, "Expected Tuple. Likely a parsing error"@)),
    }
}

/// The standard library: `print` and `PI`.
pub open spec fn spec_std() -> Seq<ValueView> {
    seq![
        ValueView {
            identifier: Some("print"@),
            variable_type: TypeView::StdFunction(StdFunction::Print),
            ref_token: None,
        },
        ValueView {
            identifier: Some("PI"@),
            variable_type: TypeView::Number(Number { bits: PI_BITS }),
            ref_token: None,
        },
    ]
}

/// The text of a value.
#[verifier::rlimit(40)]
pub fn to_string_runtime<H: Fn(NumberRequest) -> NumberAnswer>(
    host: &H,
    variable: &LoxVariable,
) -> (r: Option<String>)
    requires
        host_ready(host),
    ensures
        match spec_to_string(host_answers(host), variable@) {
            Some(text) => r is Some && r->Some_0@ == text,
            None => r is None,
        },
    decreases variable,
{
    match &variable.variable_type {
        LoxVariableType::NONE => Some(String::new()),
        LoxVariableType::BOOL(a) => Some(
            if *a {
                String::from_str("true")
            } else {
                String::from_str("false")
            },
        ),
        LoxVariableType::NUMBER(a) => {
            match ask(host, NumberRequest::Format(*a)) {
                NumberAnswer::Text(text) => Some(text),
                _ => None,
            }
        },
        LoxVariableType::STD_FUNCTION(_) => Some(String::from_str("STD FUNCTION")),
        LoxVariableType::LOX_FUNCTION(_) => Some(String::from_str("LOX FUNCTION")),
        LoxVariableType::STRING(s) => Some(s.clone()),
        LoxVariableType::TUPLE(t) => {
            if t.len() == 0 {
                return Some(String::from_str(")"));
            }
            let ghost items = value_views(t@);
            let mut res = String::new();
            let mut i: usize = 0;
            while i < t.len()
                invariant
                    host_ready(host),
                    variable.variable_type matches LoxVariableType::TUPLE(held) && held == t,
                    items == value_views(t@),
                    i <= t@.len(),
                    spec_joined(host_answers(host), items, i as int) == Some(res@),
                decreases t@.len() - i,
            {
                let tmp = match to_string_runtime(host, &t[i]) {
                    Some(tmp) => tmp,
                    None => {
                        proof {
                            lemma_joined_fails(host_answers(host), items, i + 1, t@.len() as int);
                        }
                        return None;
                    },
                };
                if i > 0 {
                    res.append(", ");
                }
                res.append(tmp.as_str());
                i += 1;
            }
            let mut text = String::from_str("(");
            text.append(res.as_str());
            text.append(")");
            Some(text)
        },
    }
}

/// Where a member of a tuple cannot be written, the tuple cannot.
pub proof fn lemma_joined_fails(answers: Answers, items: Seq<ValueView>, k: int, n: int)
    requires
        0 < k <= n <= items.len(),
        spec_joined(answers, items, k) is None,
    ensures
        spec_joined(answers, items, n) is None,
    decreases n - k,
{
    if k < n {
        lemma_joined_fails(answers, items, k + 1, n);
    }
}

/// Where a member of a tuple cannot be written, the line cannot.
pub proof fn lemma_line_fails(answers: Answers, items: Seq<ValueView>, k: int, n: int)
    requires
        0 < k <= n <= items.len(),
        spec_line(answers, items, k) is None,
    ensures
        spec_line(answers, items, n) is None,
    decreases n - k,
{
    if k < n {
        lemma_line_fails(answers, items, k + 1, n);
    }
}

/// The string value that says how `variable` is written.
pub fn lox_to_string<H: Fn(NumberRequest) -> NumberAnswer>(host: &H, variable: &LoxVariable) -> (r:
    Result<LoxVariable, ErrorLox>)
    requires
        host_ready(host),
    ensures
        result_agrees(r, spec_lox_to_string(host_answers(host), variable@)),
{
    match to_string_runtime(host, variable) {
        Some(string) => Ok(
            LoxVariable::new(None, LoxVariableType::STRING(string), variable.get_ref_node()),
        ),
        None => Err(ErrorLox::from_lox_variable(variable, "The host did not compute")),
    }
}

/// The message for a call with the wrong number of arguments.
pub fn wrong_count(expected: usize, found: usize) -> (r: String)
    ensures
        r@ == spec_wrong_count(expected as nat, found as nat),
{
    let mut r = String::from_str("Expected ");
    r.append(decimal(expected).as_str());
    r.append(" arguments, found ");
    r.append(decimal(found).as_str());
    r
}

/// Checks that the arguments of a function are a tuple of `length`
/// members that are not nothing.
pub fn check_function_input(input: &LoxVariable, length: usize) -> (r: Result<(), ErrorLox>)
    ensures
        match spec_tuple_length(input@) {
            None => r is Err && r->Err_0@ == spec_value_error(
                input@,
                "Expected Tuple. Likely a parsing error"@,
            ),
            Some(n) => if n == length {
                r is Ok
            } else {
                r is Err && r->Err_0@ == spec_value_error(
                    input@,
                    spec_wrong_count(length as nat, n),
                )
            },
        },
{
    match input.get_tuple_length() {
        Some(hint_len) => {
            if hint_len != length {
                return Err(
                    ErrorLox::from_lox_variable(input, wrong_count(length, hint_len).as_str()),
                );
            }
        },
        None => {
            return Err(
                ErrorLox::from_lox_variable(input, "Expected Tuple. Likely a parsing error"),
            );
        },
    }
    Ok(())
}

/// Checks that the arguments of a function are a tuple.
pub fn check_function_variadic_input(input: &LoxVariable) -> (r: Result<(), ErrorLox>)
    ensures
        input@.variable_type is Tuple ==> r is Ok,
        !(input@.variable_type is Tuple) ==> r is Err && r->Err_0@ == spec_value_error(
            input@,
            "Expected Tuple. Likely a parsing error"@,
        ),
{
    if !input.is_tuple() {
        return Err(ErrorLox::from_lox_variable(input, "Expected Tuple. Likely a parsing error"));
    }
    Ok(())
}

/// The line that `print` writes for its arguments.
pub fn print_lox<H: Fn(NumberRequest) -> NumberAnswer>(host: &H, input: &LoxVariable) -> (r:
    Result<String, ErrorLox>)
    requires
        host_ready(host),
    ensures
        match spec_print_lox(host_answers(host), input@) {
            Ok(line) => r is Ok && r->Ok_0@ == line,
            Err(e) => r is Err && r->Err_0@ == e,
        },
{
    match check_function_variadic_input(input) {
        Err(e) => {
            return Err(e);
        },
        Ok(_) => {},
    }
    let mut output: String = String::new();
    match &input.variable_type {
        LoxVariableType::TUPLE(content) => {
            let ghost items = value_views(content@);
            let mut i: usize = 0;
            while i < content.len()
                invariant
                    host_ready(host),
                    items == value_views(content@),
                    input@.variable_type == TypeView::Tuple(items),
                    i <= content@.len(),
                    spec_line(host_answers(host), items, i as int) == Some(output@),
                decreases content@.len() - i,
            {
                match to_string_runtime(host, &content[i]) {
                    Some(text) => {
                        output.append(text.as_str());
                    },
                    None => {
                        proof {
                            lemma_line_fails(
                                host_answers(host),
                                items,
                                i + 1,
                                content@.len() as int,
                            );
                        }
                        return Err(
                            ErrorLox::from_lox_variable(input, "Failed type conversion to String"),
                        );
                    },
                }
                i += 1;
            }
        },
        _ => {},
    }
    Ok(output)
}

/// The values that the base scope binds.
pub fn get_std() -> (r: Vec<LoxVariable>)
    ensures
        value_views(r@) == spec_std(),
{
    let mut ret: Vec<LoxVariable> = Vec::new();
    ret.push(
        LoxVariable::new(
            Some(String::from_str("print")),
            LoxVariableType::STD_FUNCTION(StdFunction::Print),
            None,
        ),
    );
    ret.push(
        LoxVariable::new(
            Some(String::from_str("PI")),
            LoxVariableType::NUMBER(Number { bits: PI_BITS }),
            None,
        ),
    );
    assert(value_views(ret@) =~= spec_std());
    ret
}

} // verus!
