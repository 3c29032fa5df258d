use lox_rust::ast_node::{AST_Node, AST_Type, ExprType, StmtType};
use lox_rust::err_lox::{ErrorLox, ErrorType, Source};
use lox_rust::parse_tree_unfinished::ParseTreeUnfinshed;
use lox_rust::parser::{parse_from_string, ParseState};
use lox_rust::runtime::lox_std::{
    check_function_input, check_function_variadic_input, get_std, lox_to_string, print_lox,
    to_string_runtime, wrong_count, PI_BITS,
};
use lox_rust::runtime::lox_variable::{
    LoxFunction, LoxVariable, LoxVariableType, Number, StdFunction,
};
use lox_rust::runtime::number::{
    silent_host, NumberAnswer, NumberComparison, NumberOp, NumberRequest,
};
use lox_rust::runtime::operators::{
    apply, arithmetic_result, comparison_result, negation_result, lox_add, lox_divide, lox_equal_equal, lox_greater, lox_greater_equal, lox_less,
    lox_less_equal, lox_minus, lox_modula, lox_multiply, lox_negate, BinaryOperator,
};
use lox_rust::runtime::stack::{
    stack_get_variable, stack_new_scope, stack_pop_scope, stack_push, Stack,
};
use lox_rust::runtime::{
    eval_expr, eval_lone_expr, exec_function_definition, literal_result, run, Runtime,
};
use lox_rust::token::{Token, TokenType};

const FUEL: usize = 1000;

fn number(value: f64) -> Number {
    Number { bits: value.to_bits() }
}

fn value_of(n: Number) -> f64 {
    f64::from_bits(n.bits)
}

/// The arithmetic of doubles, as the interpreter's host.
fn host(request: NumberRequest) -> NumberAnswer {
    match request {
        NumberRequest::Parse(text) => match text.parse::<f64>() {
            Ok(n) => NumberAnswer::Number(number(n)),
            Err(_) => NumberAnswer::Invalid,
        },
        NumberRequest::Binary(op, a, b) => {
            let (a, b) = (value_of(a), value_of(b));
            NumberAnswer::Number(number(match op {
                NumberOp::Add => a + b,
                NumberOp::Subtract => a - b,
                NumberOp::Multiply => a * b,
                NumberOp::Divide => a / b,
                NumberOp::Modulo => a % b,
            }))
        }
        NumberRequest::Negate(a) => NumberAnswer::Number(number(-value_of(a))),
        NumberRequest::Compare(op, a, b) => {
            let (a, b) = (value_of(a), value_of(b));
            NumberAnswer::Bool(match op {
                NumberComparison::Greater => a > b,
                NumberComparison::GreaterEqual => a >= b,
                NumberComparison::Less => a < b,
                NumberComparison::LessEqual => a <= b,
                NumberComparison::Equal => a == b,
            })
        }
        NumberRequest::Format(a) => NumberAnswer::Text(format!("{}", value_of(a))),
    }
}

fn tree_of(text: &str) -> AST_Node {
    let mut tree = ParseTreeUnfinshed::new();
    let mut line = 1;
    let state = parse_from_string(text, &mut line, &mut tree, "stdin");
    assert!(matches!(state, ParseState::Finished), "{}: {:?}", text, state);
    tree.get_finished_node().unwrap().unwrap().duplicate()
}

fn evaluate_in(rt: &mut Runtime, text: &str) -> Result<LoxVariable, ErrorLox> {
    run(&host, &tree_of(text), rt, FUEL)
}

fn evaluate(text: &str) -> Result<LoxVariable, ErrorLox> {
    evaluate_in(&mut Runtime::new(), text)
}

fn as_number(v: &LoxVariable) -> f64 {
    assert!(v.is_number(), "{:?}", v);
    value_of(v.get_number())
}

fn num(value: f64) -> LoxVariable {
    LoxVariable::new(None, LoxVariableType::NUMBER(number(value)), None)
}

fn text(value: &str) -> LoxVariable {
    LoxVariable::new(None, LoxVariableType::STRING(value.to_string()), None)
}

fn truth(value: bool) -> LoxVariable {
    LoxVariable::new(None, LoxVariableType::BOOL(value), None)
}

fn token(kind: TokenType, lexeme: &str, line: usize, column: usize) -> Token {
    Token::new(kind, lexeme.to_string(), line, column, "stdin")
}

fn description(r: Result<LoxVariable, ErrorLox>) -> String {
    r.unwrap_err().get_description().clone()
}

#[test]
fn arithmetic_follows_precedence() {
    assert_eq!(as_number(&evaluate("1 + 2 * 3").unwrap()), 7.0);
    assert_eq!(as_number(&evaluate("(1 + 2) * 3").unwrap()), 9.0);
    assert_eq!(as_number(&evaluate("10 - 4 - 3").unwrap()), 3.0);
    assert_eq!(as_number(&evaluate("7 % 4 + 8 / 2").unwrap()), 7.0);
    assert_eq!(as_number(&evaluate("1.5 + 0.25").unwrap()), 1.75);
    assert_eq!(as_number(&evaluate("-3 + 1").unwrap()), -2.0);
    assert_eq!(as_number(&evaluate("2 * -(1 + 2)").unwrap()), -6.0);
}

#[test]
fn compound_assignment_updates_the_variable() {
    assert_eq!(as_number(&evaluate("var a = 1\na += 2\na").unwrap()), 3.0);
    assert_eq!(as_number(&evaluate("var a = 6\na -= 2\na *= 3\na /= 4\na").unwrap()), 3.0);
}

#[test]
fn conditional_takes_the_branch_that_holds() {
    assert_eq!(as_number(&evaluate("if true { 1 } else { 2 }").unwrap()), 1.0);
    assert_eq!(as_number(&evaluate("if false { 1 } else { 2 }").unwrap()), 2.0);
    assert!(evaluate("if false { 1 }").unwrap().is_none());
    let chain = "if a == 1 { 10 } else if a == 2 { 20 } else if a == 3 { 30 } else { 40 }";
    for (a, expected) in [(1.0, 10.0), (2.0, 20.0), (3.0, 30.0), (4.0, 40.0)] {
        let mut rt = Runtime::new();
        evaluate_in(&mut rt, &format!("var a = {}", a)).unwrap();
        assert_eq!(as_number(&evaluate_in(&mut rt, chain).unwrap()), expected);
    }
}

#[test]
fn loop_runs_while_the_condition_holds() {
    assert_eq!(as_number(&evaluate("var i = 0\nwhile i < 3 { i += 1 }\ni").unwrap()), 3.0);
    let mut rt = Runtime::new();
    let last = evaluate_in(&mut rt, "var i = 0\nwhile i < 3 { i += 1 }").unwrap();
    assert_eq!(as_number(&last), 3.0);
    let none = evaluate_in(&mut rt, "while i < 3 { i += 1 }").unwrap();
    assert!(none.is_none());
}

#[test]
fn adding_a_number_to_a_string_names_the_right_operand() {
    let e = evaluate("\"a\" + 1").unwrap_err();
    assert_eq!(e.get_description(), "Expected STRING type for right operand");
    assert_eq!(e.get_error_type(), ErrorType::UnKnown);
    assert_eq!(e.get_row(), 1);
    assert_eq!(e.get_column(), 7);
    match e.get_source() {
        Source::FileName(name) => assert_eq!(name, "stdin"),
        other => panic!("{:?}", other),
    }
}

#[test]
fn strings_concatenate_and_compare() {
    let joined = evaluate("\"ab\" + \"cd\"").unwrap();
    assert!(joined.is_string());
    assert_eq!(joined.get_string(), "abcd");
    assert!(evaluate("\"ab\" == \"ab\"").unwrap().get_bool());
    assert!(!evaluate("\"ab\" == \"ba\"").unwrap().get_bool());
    assert!(evaluate("\"ab\" != \"ba\"").unwrap().get_bool());
    assert!(evaluate("true == true").unwrap().get_bool());
    assert!(evaluate("1 + 1 == 2").unwrap().get_bool());
    assert!(evaluate("1 < 2").unwrap().get_bool());
    assert!(evaluate("2 <= 2").unwrap().get_bool());
    assert!(!evaluate("1 > 2").unwrap().get_bool());
    assert!(evaluate("3 >= 2").unwrap().get_bool());
}

#[test]
fn braced_block_leaves_the_depth_as_it_was() {
    let mut rt = Runtime::new();
    assert_eq!(rt.stack.depth(), 2);
    evaluate_in(&mut rt, "{ var x = 1\n{ var y = 2 } }").unwrap();
    assert_eq!(rt.stack.depth(), 2);
    let e = evaluate_in(&mut rt, "{ var x = 1\n{ nope + 1 } }").unwrap_err();
    assert!(e.get_description().starts_with("Can not find value 'nope'"));
    assert_eq!(rt.stack.depth(), 2);
    evaluate_in(&mut rt, "if true { var z = 1 }").unwrap();
    evaluate_in(&mut rt, "var i = 0\nwhile i < 2 { var t = i\ni += 1 }").unwrap();
    assert_eq!(rt.stack.depth(), 2);
}

#[test]
fn declaration_in_a_block_shadows_and_goes_with_the_block() {
    let mut rt = Runtime::new();
    evaluate_in(&mut rt, "var x = 1").unwrap();
    let inner = evaluate_in(&mut rt, "{ var x = 2\nx }").unwrap();
    assert_eq!(as_number(&inner), 2.0);
    assert_eq!(as_number(&evaluate_in(&mut rt, "x").unwrap()), 1.0);
    let sibling = evaluate_in(&mut rt, "{ x }").unwrap();
    assert_eq!(as_number(&sibling), 1.0);
}

#[test]
fn assignment_in_a_block_reaches_the_outer_variable() {
    let mut rt = Runtime::new();
    evaluate_in(&mut rt, "var x = 1").unwrap();
    evaluate_in(&mut rt, "{ x = 5 }").unwrap();
    assert_eq!(as_number(&evaluate_in(&mut rt, "x").unwrap()), 5.0);
}

#[test]
fn assignment_needs_a_declaration() {
    let e = evaluate("y = 1").unwrap_err();
    assert_eq!(
        e.get_description(),
        "Can not find value 'y' in scope. Variable can only be used after declaration."
    );
    assert_eq!(e.get_column(), 1);
    let e = evaluate("y += 1").unwrap_err();
    assert!(e.get_description().starts_with("Can not find value 'y'"));
    let e = evaluate("z").unwrap_err();
    assert!(e.get_description().starts_with("Can not find value 'z'"));
}

#[test]
fn assignment_returns_the_variable() {
    let mut rt = Runtime::new();
    evaluate_in(&mut rt, "var a = 1").unwrap();
    let assigned = evaluate_in(&mut rt, "a = \"s\"").unwrap();
    assert_eq!(assigned.get_identifier(), Some("a".to_string()));
    assert_eq!(assigned.get_string(), "s");
    assert_eq!(assigned.get_ref_node().unwrap().token_type, TokenType::EQUAL);
    assert!(evaluate("var b = 1").unwrap().is_none());
}

#[test]
fn condition_has_to_be_a_truth_value() {
    assert_eq!(description(evaluate("if 1 { 2 }")), "Expected boolean expression after if");
    assert_eq!(
        description(evaluate("while 1 { 2 }")),
        "Expected boolean expression after while"
    );
    let mut rt = Runtime::new();
    evaluate_in(&mut rt, "var a = true\nvar n = 1").unwrap();
    assert_eq!(as_number(&evaluate_in(&mut rt, "if a { 2 }").unwrap()), 2.0);
    assert_eq!(
        description(evaluate_in(&mut rt, "if n { 2 }")),
        "Expected boolean expression after if"
    );
    assert_eq!(
        description(evaluate_in(&mut rt, "if \"s\" { 2 }")),
        "Expected boolean expression after if"
    );
}

#[test]
fn negation_of_numbers_and_truth_values() {
    assert_eq!(value_of(lox_negate(&host, &num(2.5)).unwrap().get_number()), -2.5);
    assert!(!lox_negate(&host, &truth(true)).unwrap().get_bool());
    assert_eq!(
        lox_negate(&host, &text("a")).unwrap_err().get_description(),
        "lox_negate: expected NUMBER or BOOL"
    );
}

#[test]
fn operators_check_their_operands() {
    let n = num(6.0);
    let m = num(4.0);
    let s = text("s");
    let b = truth(true);
    assert_eq!(value_of(lox_add(&host, &n, &m).unwrap().get_number()), 10.0);
    assert_eq!(value_of(lox_minus(&host, &n, &m).unwrap().get_number()), 2.0);
    assert_eq!(value_of(lox_multiply(&host, &n, &m).unwrap().get_number()), 24.0);
    assert_eq!(value_of(lox_divide(&host, &n, &m).unwrap().get_number()), 1.5);
    assert_eq!(value_of(lox_modula(&host, &n, &m).unwrap().get_number()), 2.0);
    assert!(lox_greater(&host, &n, &m).unwrap().get_bool());
    assert!(lox_greater_equal(&host, &n, &n).unwrap().get_bool());
    assert!(!lox_less(&host, &n, &m).unwrap().get_bool());
    assert!(lox_less_equal(&host, &m, &n).unwrap().get_bool());
    assert!(!lox_equal_equal(&host, &n, &m).unwrap().get_bool());
    assert!(apply(&host, BinaryOperator::BangEqual, &n, &m).unwrap().get_bool());

    type Op = fn(&fn(NumberRequest) -> NumberAnswer, &LoxVariable, &LoxVariable)
        -> Result<LoxVariable, ErrorLox>;
    let h: fn(NumberRequest) -> NumberAnswer = host;
    let numeric: [Op; 8] = [
        lox_minus, lox_multiply, lox_divide, lox_modula, lox_greater, lox_greater_equal, lox_less,
        lox_less_equal,
    ];
    for op in numeric {
        assert_eq!(
            op(&h, &n, &s).unwrap_err().get_description(),
            "Expected NUMBER type for right operand"
        );
        assert_eq!(
            op(&h, &s, &n).unwrap_err().get_description(),
            "Expected NUMBER type for left operand"
        );
    }
    assert_eq!(
        lox_add(&host, &n, &s).unwrap_err().get_description(),
        "Expected NUMBER type for right operand"
    );
    assert_eq!(
        lox_add(&host, &s, &n).unwrap_err().get_description(),
        "Expected STRING type for right operand"
    );
    assert_eq!(
        lox_add(&host, &b, &n).unwrap_err().get_description(),
        "Expected NUMBER or STRING type for left operand"
    );
    assert_eq!(
        lox_equal_equal(&host, &b, &n).unwrap_err().get_description(),
        "Expected BOOL type for right operand"
    );
    assert_eq!(
        lox_equal_equal(&host, &s, &n).unwrap_err().get_description(),
        "Expected STRING type for right operand"
    );
    assert_eq!(
        lox_equal_equal(&host, &LoxVariable::empty(), &n).unwrap_err().get_description(),
        "Expected NUMBER or STRING or BOOL type for left operand"
    );
}

#[test]
fn error_of_a_value_from_nowhere_points_nowhere() {
    let e = lox_add(&host, &truth(true), &num(1.0)).unwrap_err();
    assert!(matches!(e.get_source(), Source::NoSource));
    assert_eq!((e.get_row(), e.get_column()), (0, 0));
}

#[test]
fn host_that_does_not_compute_is_an_error() {
    assert_eq!(
        lox_add(&silent_host, &num(1.0), &num(2.0)).unwrap_err().get_description(),
        "The host did not compute"
    );
    assert_eq!(
        lox_less(&silent_host, &num(1.0), &num(2.0)).unwrap_err().get_description(),
        "The host did not compute"
    );
    assert_eq!(
        lox_negate(&silent_host, &num(1.0)).unwrap_err().get_description(),
        "The host did not compute"
    );
    let e = run(&silent_host, &tree_of("12"), &mut Runtime::new(), FUEL).unwrap_err();
    assert_eq!(e.get_description(), "Failed to parse NUM!");
    assert_eq!(e.get_column(), 1);
    assert!(to_string_runtime(&silent_host, &num(1.0)).is_none());
    assert!(lox_to_string(&silent_host, &num(1.0)).is_err());
}

#[test]
fn budget_bounds_nesting() {
    let e = run(&host, &tree_of("1 + 2"), &mut Runtime::new(), 3).unwrap_err();
    assert_eq!(e.get_error_type(), ErrorType::DepthExhausted);
    assert_eq!(e.get_description(), "Evaluation budget exhausted");
    let e = run(&host, &tree_of("1"), &mut Runtime::new(), 0).unwrap_err();
    assert_eq!(e.get_error_type(), ErrorType::DepthExhausted);

    let mut rt = Runtime::new();
    let looping = tree_of("var i = 0\nwhile i < 200 { i += 1 }\ni");
    assert_eq!(as_number(&run(&host, &looping, &mut rt, 12).unwrap()), 200.0);
    let e = run(&host, &looping, &mut rt, 4).unwrap_err();
    assert_eq!(e.get_error_type(), ErrorType::DepthExhausted);
    assert_eq!(rt.stack.depth(), 2);
}

#[test]
fn leaves_denote_their_literals() {
    let leaf = |kind, lexeme: &str| {
        AST_Node::new(AST_Type::Expr(ExprType::Normal), token(kind, lexeme, 2, 3))
    };
    let n = eval_lone_expr(&host, &leaf(TokenType::NUMBER, "12.5")).unwrap();
    assert_eq!(as_number(&n), 12.5);
    assert_eq!(n.get_ref_node().unwrap().line, 2);
    assert!(n.is_rvalue() && !n.is_lvalue());
    assert_eq!(eval_lone_expr(&host, &leaf(TokenType::STRING, "hi")).unwrap().get_string(), "hi");
    assert!(eval_lone_expr(&host, &leaf(TokenType::TRUE, "true")).unwrap().get_bool());
    assert!(!eval_lone_expr(&host, &leaf(TokenType::FALSE, "false")).unwrap().get_bool());
    assert!(eval_lone_expr(&host, &leaf(TokenType::NIL, "nil")).unwrap().is_none());
    let mut parent = leaf(TokenType::PLUS, "+");
    parent.append_child(leaf(TokenType::NUMBER, "1"));
    assert_eq!(
        eval_lone_expr(&host, &parent).unwrap_err().get_description(),
        "Internal Runtime Error: eval_lone_expr called on none lone expr"
    );
}

#[test]
fn statement_is_no_expression() {
    let node = AST_Node::dummy_node(AST_Type::Stmt(StmtType::Compound));
    let e = eval_expr(&host, &node, &mut Runtime::new(), FUEL).unwrap_err();
    assert_eq!(e.get_description(), "eval_expr called on non-expr, likely internal error");
    assert!(run(&host, &node, &mut Runtime::new(), FUEL).unwrap().is_none());
    let unparsed = AST_Node::dummy_node(AST_Type::Unparsed(TokenType::ELSE));
    assert!(run(&host, &unparsed, &mut Runtime::new(), FUEL).unwrap().is_none());
}

#[test]
fn tuple_evaluates_its_members_in_order() {
    let t = evaluate("1, \"a\", true").unwrap();
    assert!(t.is_tuple());
    assert_eq!(t.get_tuple_length(), Some(3));
    let items = t.get_tuple_content().unwrap();
    assert_eq!(as_number(&items[0]), 1.0);
    assert_eq!(items[1].get_string(), "a");
    assert!(items[2].get_bool());
    assert_eq!(num(1.0).get_tuple_length(), None);
    assert!(num(1.0).get_tuple_content().is_none());
}

#[test]
fn to_tuple_wraps_what_is_no_tuple() {
    let one = num(1.0).to_tuple();
    assert_eq!(one.get_tuple_length(), Some(1));
    let again = one.to_tuple();
    assert_eq!(again.get_tuple_content().unwrap().len(), 1);
    let nothing = LoxVariable::empty().to_tuple();
    assert_eq!(nothing.get_tuple_length(), Some(0));
    assert_eq!(nothing.get_tuple_content().unwrap().len(), 1);
}

#[test]
fn print_writes_one_line() {
    let mut rt = Runtime::new();
    let r = evaluate_in(&mut rt, "print(1 + 2, \" is \", true)").unwrap();
    assert!(r.is_none());
    evaluate_in(&mut rt, "print()").unwrap();
    evaluate_in(&mut rt, "print(PI)").unwrap();
    assert_eq!(rt.output, vec!["3 is true", "", "3.141592653589793"]);
    assert_eq!(rt.stack.depth(), 2);
}

#[test]
fn values_are_written_by_kind() {
    let pair = LoxVariable::new(None, LoxVariableType::TUPLE(vec![num(1.0), text("a")]), None);
    let nested = LoxVariable::new(
        None,
        LoxVariableType::TUPLE(vec![pair.duplicate(), truth(false)]),
        None,
    );
    let empty = LoxVariable::new(None, LoxVariableType::TUPLE(vec![]), None);
    assert_eq!(to_string_runtime(&host, &num(2.5)).unwrap(), "2.5");
    assert_eq!(to_string_runtime(&host, &pair).unwrap(), "(1, a)");
    assert_eq!(to_string_runtime(&host, &nested).unwrap(), "((1, a), false)");
    assert_eq!(to_string_runtime(&host, &empty).unwrap(), ")");
    assert_eq!(to_string_runtime(&host, &LoxVariable::empty()).unwrap(), "");
    let std = get_std();
    assert_eq!(to_string_runtime(&host, &std[0]).unwrap(), "STD FUNCTION");
    let s = lox_to_string(&host, &truth(true)).unwrap();
    assert_eq!(s.get_string(), "true");
    assert_eq!(print_lox(&host, &nested).unwrap(), "(1, a)false");
    assert_eq!(
        print_lox(&host, &num(1.0)).unwrap_err().get_description(),
        "Expected Tuple. Likely a parsing error"
    );
}

#[test]
fn function_input_is_checked() {
    let pair = LoxVariable::new(None, LoxVariableType::TUPLE(vec![num(1.0), text("a")]), None);
    assert!(check_function_input(&pair, 2).is_ok());
    assert_eq!(
        check_function_input(&pair, 3).unwrap_err().get_description(),
        "Expected 3 arguments, found 2"
    );
    assert_eq!(wrong_count(0, 12), "Expected 0 arguments, found 12");
    assert_eq!(
        check_function_input(&num(1.0), 1).unwrap_err().get_description(),
        "Expected Tuple. Likely a parsing error"
    );
    assert!(check_function_variadic_input(&pair).is_ok());
    assert!(check_function_variadic_input(&num(1.0)).is_err());
}

#[test]
fn standard_library_binds_print_and_pi() {
    let std = get_std();
    assert_eq!(std.len(), 2);
    assert_eq!(std[0].get_identifier(), Some("print".to_string()));
    assert!(std[0].is_function());
    assert_eq!(std[0].get_function(), StdFunction::Print);
    assert_eq!(std[1].get_identifier(), Some("PI".to_string()));
    assert_eq!(std[1].get_number().bits, PI_BITS);
    assert_eq!(value_of(std[1].get_number()), std::f64::consts::PI);
    assert_eq!(as_number(&evaluate("PI").unwrap()), std::f64::consts::PI);
}

#[test]
fn function_is_defined_and_called() {
    let mut rt = Runtime::new();
    let defined = evaluate_in(&mut rt, "fn add(a, b) { a + b }").unwrap();
    assert_eq!(defined.get_identifier(), Some("add".to_string()));
    assert_eq!(as_number(&evaluate_in(&mut rt, "add(1, 2)").unwrap()), 3.0);
    assert_eq!(as_number(&evaluate_in(&mut rt, "add(add(1, 2), 4) * 2").unwrap()), 14.0);
    assert_eq!(rt.stack.depth(), 2);
    assert_eq!(description(evaluate_in(&mut rt, "add(1)")), "Expected 2 arguments, found 1");
    assert!(description(evaluate_in(&mut rt, "a")).starts_with("Can not find value 'a'"));
    assert!(description(evaluate_in(&mut rt, "nope(1)")).starts_with("Can not find value 'nope'"));
    assert_eq!(rt.stack.depth(), 2);

    evaluate_in(&mut rt, "fn one(x) { x }").unwrap();
    assert_eq!(evaluate_in(&mut rt, "one(\"s\")").unwrap().get_string(), "s");
    evaluate_in(&mut rt, "fn zero() { 7 }").unwrap();
    assert_eq!(as_number(&evaluate_in(&mut rt, "zero()").unwrap()), 7.0);
    evaluate_in(&mut rt, "var n = 5").unwrap();
    let e = evaluate_in(&mut rt, "n(1)").unwrap_err();
    assert_eq!(e.get_description(), "Called value is not a function");
    assert_eq!(e.get_column(), 1);
    assert_eq!(rt.stack.depth(), 2);
}

#[test]
fn function_call_runs_in_its_own_scope() {
    let mut rt = Runtime::new();
    evaluate_in(&mut rt, "var a = 10").unwrap();
    evaluate_in(&mut rt, "fn f(a) { a = a + 1\na }").unwrap();
    assert_eq!(as_number(&evaluate_in(&mut rt, "f(1)").unwrap()), 2.0);
    assert_eq!(as_number(&evaluate_in(&mut rt, "a").unwrap()), 10.0);
    evaluate_in(&mut rt, "fn bad(x) { x + nope }").unwrap();
    assert!(evaluate_in(&mut rt, "bad(1)").is_err());
    assert_eq!(rt.stack.depth(), 2);
}

#[test]
fn recursion_ends_with_the_budget() {
    let mut rt = Runtime::new();
    evaluate_in(&mut rt, "fn down(n) { if n == 0 { 0 } else { down(n - 1) } }").unwrap();
    assert_eq!(as_number(&evaluate_in(&mut rt, "down(5)").unwrap()), 0.0);
    evaluate_in(&mut rt, "fn forever(n) { forever(n) }").unwrap();
    let e = evaluate_in(&mut rt, "forever(1)").unwrap_err();
    assert_eq!(e.get_error_type(), ErrorType::DepthExhausted);
    assert_eq!(rt.stack.depth(), 2);
}

#[test]
fn malformed_function_definition_is_an_error() {
    let mut rt = Runtime::new();
    let node = AST_Node::new(
        AST_Type::Stmt(StmtType::FunctionDef),
        token(TokenType::FN, "fn", 1, 1),
    );
    assert_eq!(
        description(exec_function_definition(&node, &mut rt)),
        "Correct function definition is fn IDENTIFER (a,b,c) {}"
    );
    let mut node = node;
    node.append_child(AST_Node::from_token(token(TokenType::IDENTIFIER, "f", 1, 4)));
    let mut paren = AST_Node::new(AST_Type::Expr(ExprType::Paren), token(TokenType::LEFT_PAREN, "(", 1, 5));
    paren.append_child(AST_Node::from_token(token(TokenType::IDENTIFIER, "a", 1, 6)));
    paren.append_child(AST_Node::from_token(token(TokenType::IDENTIFIER, "b", 1, 8)));
    node.append_child(paren);
    node.append_child(AST_Node::new(
        AST_Type::Stmt(StmtType::Braced),
        token(TokenType::LEFT_BRACE, "{", 1, 10),
    ));
    let e = exec_function_definition(&node, &mut rt).unwrap_err();
    assert_eq!(e.get_description(), "Expected one tuple, found multiple nodes");
    assert_eq!(e.get_column(), 5);
}

#[test]
fn function_from_ast_checks_its_parts() {
    let tuple = AST_Node::dummy_node(AST_Type::Tuple);
    let body = AST_Node::dummy_node(AST_Type::Stmt(StmtType::Braced));
    let f = LoxFunction::from_ast(&tuple, &body).unwrap();
    assert_eq!(f.get_lexeme_length(), 0);
    assert!(f.get_lexeme().is_empty());
    assert_eq!(f.get_content().get_AST_Type(), AST_Type::Stmt(StmtType::Braced));
    assert_eq!(
        LoxFunction::from_ast(&body, &body).unwrap_err().get_description(),
        "expected tuple or identifer for function definition (LoxFunction::from_ast)"
    );
    assert_eq!(
        LoxFunction::from_ast(&tuple, &tuple).unwrap_err().get_description(),
        "expected braced stmt for function definition"
    );
}

#[test]
fn stack_finds_the_innermost_binding() {
    let named = |name: &str, value: f64| {
        LoxVariable::new(Some(name.to_string()), LoxVariableType::NUMBER(number(value)), None)
    };
    let node = AST_Node::from_token(token(TokenType::IDENTIFIER, "x", 4, 2));
    let mut stack = Stack::new();
    assert_eq!(stack.depth(), 0);
    stack_pop_scope(&mut stack);
    assert_eq!(stack.depth(), 0);
    stack_new_scope(&mut stack);
    stack_push(&mut stack, named("x", 1.0));
    stack_push(&mut stack, num(9.0));
    stack_new_scope(&mut stack);
    assert_eq!(as_number(&stack_get_variable(&stack, "x", &node).unwrap()), 1.0);
    stack_push(&mut stack, named("x", 2.0));
    assert_eq!(as_number(&stack_get_variable(&stack, "x", &node).unwrap()), 2.0);
    stack_push(&mut stack, named("x", 3.0));
    assert_eq!(as_number(&stack_get_variable(&stack, "x", &node).unwrap()), 3.0);
    assert!(stack.rebind("x", named("x", 4.0)));
    assert_eq!(as_number(stack.get("x").unwrap()), 4.0);
    stack_pop_scope(&mut stack);
    assert_eq!(stack.depth(), 1);
    assert_eq!(as_number(&stack_get_variable(&stack, "x", &node).unwrap()), 1.0);
    assert!(!stack.rebind("y", named("y", 4.0)));
    let e = stack_get_variable(&stack, "y", &node).unwrap_err();
    assert_eq!(
        e.get_description(),
        "Can not find value 'y' in scope. Variable can only be used after declaration."
    );
    assert_eq!((e.get_row(), e.get_column()), (4, 2));
    stack_pop_scope(&mut stack);
    assert!(stack.get("x").is_none());
}

#[test]
fn variable_accessors() {
    let mut v = LoxVariable::new(None, LoxVariableType::NONE, None);
    assert!(v.is_none() && v.is_rvalue());
    v.set_identifier("n".to_string());
    v.set_type(LoxVariableType::NUMBER(number(1.0)));
    v.set_ref_node(token(TokenType::NUMBER, "1", 3, 4));
    assert!(v.is_lvalue() && v.is_number() && !v.is_bool() && !v.is_string());
    assert!(!v.is_tuple() && !v.is_function());
    assert_eq!(v.get_identifier(), Some("n".to_string()));
    assert!(matches!(v.get_type(), LoxVariableType::NUMBER(_)));
    let e = ErrorLox::from_lox_variable(&v, "here");
    assert_eq!((e.get_row(), e.get_column()), (3, 4));
    let from_node = LoxVariable::empty_from_ast_node(&AST_Node::from_token(token(
        TokenType::LEFT_PAREN,
        "(",
        5,
        6,
    )));
    assert!(from_node.is_none());
    assert_eq!(from_node.get_ref_node().unwrap().column, 6);
}

#[test]
fn error_constructors() {
    let mut e = ErrorLox::from_filename("d", 1, 2, "f.lox");
    assert_eq!(e.get_error_type(), ErrorType::UnKnown);
    e.set_error_type(ErrorType::ParseErr);
    assert_eq!(e.get_error_type(), ErrorType::ParseErr);
    assert_eq!(e.get_description(), "d");
    assert!(matches!(Source::from_filename("f.lox"), Source::FileName(name) if name == "f.lox"));
    let t = token(TokenType::PLUS, "+", 7, 8);
    let e = ErrorLox::from_token(&t, "x");
    assert_eq!((e.get_row(), e.get_column()), (7, 8));
    let e = ErrorLox::from_ast_node(&AST_Node::from_token(t), "x");
    assert_eq!((e.get_row(), e.get_column()), (7, 8));
    assert!(matches!(ErrorLox::nowhere("x").get_source(), Source::NoSource));
}

#[test]
fn tokens() {
    let d = Token::dummy();
    assert_eq!(d.token_type, TokenType::DUMMY);
    assert_eq!((d.line, d.column), (0, 0));
    assert_eq!(d.lexeme, "");
    let r = Token::random();
    assert_eq!(r.lexeme, "DUMMY");
    assert_ne!(r.token_type, TokenType::AND);
    assert_eq!(TokenType::token_type_at(0), TokenType::LEFT_PAREN);
    assert_eq!(TokenType::token_type_at(29), TokenType::CLASS);
    assert_eq!(TokenType::token_type_at(45), TokenType::DUMMY);
    let t = token(TokenType::NUMBER, "1", 1, 2);
    assert_eq!(t.get_token_type(), TokenType::NUMBER);
    assert_eq!(t.get_lexeme(), "1");
    assert_eq!(format!("{:?}", t.duplicate()), format!("{:?}", t));
}

#[test]
fn results_are_made_from_the_answers_of_the_host() {
    let left = LoxVariable::new(
        Some("l".to_string()),
        LoxVariableType::NUMBER(number(1.0)),
        Some(token(TokenType::NUMBER, "1", 2, 3)),
    );
    let sum = arithmetic_result(&left, NumberAnswer::Number(number(4.0))).unwrap();
    assert_eq!(as_number(&sum), 4.0);
    assert!(sum.is_rvalue());
    assert_eq!(sum.get_ref_node().unwrap().column, 3);
    let e = arithmetic_result(&left, NumberAnswer::Bool(true)).unwrap_err();
    assert_eq!(e.get_description(), "The host did not compute");
    assert_eq!((e.get_row(), e.get_column()), (2, 3));

    assert!(comparison_result(&left, NumberAnswer::Bool(true)).unwrap().get_bool());
    assert!(comparison_result(&left, NumberAnswer::Number(number(1.0))).is_err());

    let negated = negation_result(&left, NumberAnswer::Number(number(-1.0))).unwrap();
    assert_eq!(as_number(&negated), -1.0);
    assert_eq!(negated.get_identifier(), Some("l".to_string()));
    assert!(negation_result(&left, NumberAnswer::Text("x".to_string())).is_err());

    let node = AST_Node::from_token(token(TokenType::NUMBER, "12", 5, 6));
    assert_eq!(as_number(&literal_result(&node, NumberAnswer::Number(number(12.0))).unwrap()), 12.0);
    let e = literal_result(&node, NumberAnswer::Invalid).unwrap_err();
    assert_eq!(e.get_description(), "Failed to parse NUM!");
    assert_eq!((e.get_row(), e.get_column()), (5, 6));
}

#[test]
fn program_without_numbers_runs_with_the_silent_host() {
    let mut rt = Runtime::new();
    let tree = tree_of("var s = \"a\" + \"b\"\nif s == \"ab\" { print(s, true) }");
    run(&silent_host, &tree, &mut rt, FUEL).unwrap();
    assert_eq!(rt.output, vec!["abtrue"]);
}

#[test]
fn string_leaf_evaluates_to_its_text() {
    let leaf = AST_Node::from_token(token(TokenType::STRING, "hi", 1, 1));
    assert_eq!(leaf.get_AST_Type(), AST_Type::Unparsed(TokenType::STRING));
    assert_eq!(eval_expr(&host, &leaf, &mut Runtime::new(), FUEL).unwrap().get_string(), "hi");
    assert_eq!(run(&host, &leaf, &mut Runtime::new(), FUEL).unwrap().get_string(), "hi");
    assert_eq!(evaluate("\"hi\"").unwrap().get_string(), "hi");
    assert_eq!(evaluate("(\"hi\")").unwrap().get_string(), "hi");
}

#[test]
fn block_leaves_the_outer_scopes_with_their_names() {
    let mut rt = Runtime::new();
    evaluate_in(&mut rt, "var x = 1").unwrap();
    evaluate_in(&mut rt, "{ var y = 2\nx = y }").unwrap();
    assert_eq!(as_number(&evaluate_in(&mut rt, "x").unwrap()), 2.0);
    assert!(description(evaluate_in(&mut rt, "y")).starts_with("Can not find value 'y'"));
    assert!(evaluate_in(&mut rt, "{ var z = 3\nz + nope }").is_err());
    assert!(description(evaluate_in(&mut rt, "z")).starts_with("Can not find value 'z'"));
    evaluate_in(&mut rt, "if true { var w = 1 } else { var v = 1 }").unwrap();
    assert!(evaluate_in(&mut rt, "w").is_err());
    assert!(rt.stack.get("x").is_some());
    assert!(rt.stack.get("print").is_some());
}
