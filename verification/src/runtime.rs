//! The evaluator: walks a finished tree against the variable stack.
pub mod lox_std;
pub mod lox_variable;
pub mod number;
pub mod operators;
pub mod scope_depth;
pub mod scope_names;
pub mod stack;

use crate::ast_node::{group_views, spec_leaf, AST_Node, AST_Type, ExprType, NodeView, StmtType};
use crate::err_lox::{spec_error_at, ErrorLox, ErrorType, ErrorView};
use crate::runtime::lox_std::{
    print_lox, spec_print_lox, spec_std, spec_wrong_count, wrong_count,
};
use crate::runtime::lox_variable::{
    group_values, lemma_count_present_bound, spec_count_present, spec_empty, spec_empty_from,
    spec_function_from_ast, spec_to_tuple, spec_value_error, value_views, FunctionView,
    LoxFunction, LoxVariable, LoxVariableType, StdFunction, TypeView, ValueView,
};
use crate::runtime::number::{
    ask, host_answers, host_ready, AnswerView, Answers, NumberAnswer, NumberRequest, RequestView,
};
use crate::runtime::operators::{
    apply, lox_negate, result_agrees, spec_apply, spec_lox_negate, BinaryOperator,
};
use crate::runtime::scope_names::{
    lemma_eval_expr_names, lemma_exec_braced_stmt_names, lemma_run_names, spec_names_grow,
    spec_names_kept,
};
use crate::runtime::stack::{
    scope_map, spec_lookup, spec_new_scope, spec_pop_scope, spec_push, spec_rebind,
    spec_undeclared_error, stack_get_variable, ScopeView, Stack,
};
use crate::token::{spec_dummy_token, TokenType};
use vstd::prelude::*;

verus! {

broadcast use {group_views, group_values};

/// What a running program has: its variables and what it has written.
#[derive(Debug)]
pub struct Runtime {
    pub stack: Stack,
    /// The lines written so far, the oldest first.
    pub output: Vec<String>,
}

pub struct RuntimeView {
    pub stack: Seq<ScopeView>,
    pub output: Seq<Seq<char>>,
}

impl View for Runtime {
    type V = RuntimeView;

    open spec fn view(&self) -> RuntimeView {
        RuntimeView {
            stack: self.stack@,
            output: crate::runtime::lox_variable::string_views(self.output@),
        }
    }
}

/// What an evaluation comes to: the value or the error, and the state of
/// the program behind it.
pub struct Outcome {
    pub result: Result<ValueView, ErrorView>,
    pub state: RuntimeView,
}

pub open spec fn done(value: ValueView, state: RuntimeView) -> Outcome {
    Outcome { result: Ok(value), state }
}

pub open spec fn fail(e: ErrorView, state: RuntimeView) -> Outcome {
    Outcome { result: Err(e), state }
}

/// Whether what an evaluation returned and left behind is `expected`.
pub open spec fn outcome_agrees(
    r: Result<LoxVariable, ErrorLox>,
    state: RuntimeView,
    expected: Outcome,
) -> bool {
    result_agrees(r, expected.result) && state == expected.state
}

/// The diagnostic that points at the token of `node`.
pub open spec fn spec_ast_error(node: NodeView, description: Seq<char>) -> ErrorView {
    spec_error_at(description, node.token.line, node.token.column, node.token.source_file)
}

/// The diagnostic for an evaluation that nests deeper than its budget
/// allows, or loops longer than a machine can count.
pub open spec fn spec_exhausted(node: NodeView) -> ErrorView {
    ErrorView {
        error_type: ErrorType::DepthExhausted,
        ..spec_ast_error(node, "Evaluation budget exhausted"@)
    }
}

/// The binary operator that a token stands for.
pub open spec fn spec_operator_of(kind: TokenType) -> Option<BinaryOperator> {
    match kind {
        TokenType::PLUS => Some(BinaryOperator::Add),
        TokenType::MINUS => Some(BinaryOperator::Minus),
        TokenType::STAR => Some(BinaryOperator::Multiply),
        TokenType::SLASH => Some(BinaryOperator::Divide),
        TokenType::PERCENT => Some(BinaryOperator::Modula),
        TokenType::GREATER => Some(BinaryOperator::Greater),
        TokenType::GREATER_EQUAL => Some(BinaryOperator::GreaterEqual),
        TokenType::EQUAL_EQUAL => Some(BinaryOperator::EqualEqual),
        TokenType::BANG_EQUAL => Some(BinaryOperator::BangEqual),
        TokenType::LESS => Some(BinaryOperator::Less),
        TokenType::LESS_EQUAL => Some(BinaryOperator::LessEqual),
        _ => None,
    }
}

/// The operator that a compound assignment applies.
pub open spec fn spec_operator_of_stmt(kind: StmtType) -> Option<BinaryOperator> {
    match kind {
        StmtType::PlusEqual => Some(BinaryOperator::Add),
        StmtType::MinusEqual => Some(BinaryOperator::Minus),
        StmtType::StarEqual => Some(BinaryOperator::Multiply),
        StmtType::SlashEqual => Some(BinaryOperator::Divide),
        StmtType::PercentEqual => Some(BinaryOperator::Modula),
        _ => None,
    }
}

/// What a number literal makes of the host's answer: the number, as a
/// value that comes from the literal. Any answer but a number means that
/// the literal denotes none.
pub open spec fn spec_literal_result(node: NodeView, answer: AnswerView) -> Result<
    ValueView,
    ErrorView,
> {
    match answer {
        AnswerView::Number(n) => Ok(
            ValueView {
                identifier: None,
                variable_type: TypeView::Number(n),
                ref_token: Some(node.token),
            },
        ),
        _ => Err(spec_ast_error(node, "Failed to parse NUM!"@)),
    }
}

/// The value of a leaf: what its token denotes.
pub open spec fn spec_eval_lone_expr(answers: Answers, node: NodeView) -> Result<
    ValueView,
    ErrorView,
> {
    if node.children.len() != 0 {
        Err(
            spec_ast_error(
                node,
                "Internal Runtime Error: eval_lone_expr called on none lone expr"@,
            ),
        )
    } else {
        let from_here = |kind: TypeView|
            ValueView { identifier: None, variable_type: kind, ref_token: Some(node.token) };
        match node.token.token_type {
            TokenType::NUMBER => spec_literal_result(
                node,
                answers(RequestView::Parse(node.token.lexeme)),
            ),
            TokenType::STRING => Ok(from_here(TypeView::Str(node.token.lexeme))),
            TokenType::TRUE => Ok(from_here(TypeView::Bool(true))),
            TokenType::FALSE => Ok(from_here(TypeView::Bool(false))),
            _ => Ok(spec_empty()),
        }
    }
}

/// The evaluation of a node of any kind. The budget `fuel` bounds how
/// deep evaluations may nest: each step from a node to one of its
/// children, and each call of a function, takes from it.
pub open spec fn spec_run(
    answers: Answers,
    node: NodeView,
    state: RuntimeView,
    fuel: nat,
) -> Outcome
    decreases fuel, 1nat, 0nat,
{
    if fuel == 0 {
        fail(spec_exhausted(node), state)
    } else {
        let rest = (fuel - 1) as nat;
        match node.ast_type {
            AST_Type::Expr(_) | AST_Type::Identifier | AST_Type::Unparsed(TokenType::STRING) => {
                spec_eval_expr(answers, node, state, fuel)
            },
            AST_Type::Tuple => spec_eval_tuple(answers, node, state, rest),
            AST_Type::Stmt(kind) => match kind {
                StmtType::Compound | StmtType::Normal => spec_execute_compound_stmt(
                    answers,
                    node,
                    state,
                    rest,
                ),
                StmtType::Assignment => spec_exec_assignment(answers, node, state, rest),
                StmtType::PlusEqual | StmtType::MinusEqual | StmtType::StarEqual
                | StmtType::SlashEqual | StmtType::PercentEqual => spec_exec_something_equal(
                    answers,
                    node,
                    spec_operator_of_stmt(kind)->Some_0,
                    state,
                    rest,
                ),
                StmtType::Declaration => spec_exec_declaration(answers, node, state, rest),
                StmtType::Braced => spec_exec_braced_stmt(answers, node, state, rest),
                StmtType::If => spec_exec_if_stmt(answers, node, state, rest),
                StmtType::While => spec_exec_while_stmt(answers, node, state, rest),
                StmtType::FunctionDef => spec_exec_function_definition(node, state),
                _ => done(spec_empty(), state),
            },
            _ => done(spec_empty(), state),
        }
    }
}

/// The evaluation of an expression: a node classified as one, a name, a
/// tuple, or the leaf of a string literal.
pub open spec fn spec_eval_expr(
    answers: Answers,
    node: NodeView,
    state: RuntimeView,
    fuel: nat,
) -> Outcome
    decreases fuel, 0nat, 0nat,
{
    if fuel == 0 {
        fail(spec_exhausted(node), state)
    } else {
        let rest = (fuel - 1) as nat;
        match node.ast_type {
            AST_Type::Expr(ExprType::Normal) => spec_eval_expr_normal(answers, node, state, rest),
            AST_Type::Expr(ExprType::Function) => spec_eval_expr_function(
                answers,
                node,
                state,
                rest,
            ),
            AST_Type::Expr(ExprType::Paren) => spec_eval_expr_paren(answers, node, state, rest),
            AST_Type::Expr(ExprType::Negated) => spec_eval_expr_negated(
                answers,
                node,
                state,
                rest,
            ),
            AST_Type::Identifier => match spec_lookup(state.stack, node.token.lexeme) {
                Some(value) => done(value, state),
                None => fail(
                    spec_undeclared_error(
                        node.token.lexeme,
                        node.token.line,
                        node.token.column,
                        node.token.source_file,
                    ),
                    state,
                ),
            },
            AST_Type::Tuple => spec_eval_tuple(answers, node, state, rest),
            AST_Type::Unparsed(TokenType::STRING) => Outcome {
                result: spec_eval_lone_expr(answers, node),
                state,
            },
            _ => fail(
                spec_ast_error(node, "eval_expr called on non-expr, likely internal error"@),
                state,
            ),
        }
    }
}

/// A plain expression: a leaf, a wrapper around one expression, or a
/// binary operator with its operands, the left one evaluated first.
pub open spec fn spec_eval_expr_normal(
    answers: Answers,
    node: NodeView,
    state: RuntimeView,
    fuel: nat,
) -> Outcome
    decreases fuel, 3nat, 0nat,
{
    if node.children.len() == 0 {
        Outcome { result: spec_eval_lone_expr(answers, node), state }
    } else if node.children.len() == 1 {
        spec_eval_expr(answers, node.children[0], state, fuel)
    } else if node.children.len() == 2 && spec_operator_of(node.token.token_type) is Some {
        let left = spec_eval_expr(answers, node.children[0], state, fuel);
        if left.result is Err {
            left
        } else {
            let right = spec_eval_expr(answers, node.children[1], left.state, fuel);
            if right.result is Err {
                right
            } else {
                Outcome {
                    result: spec_apply(
                        answers,
                        spec_operator_of(node.token.token_type)->Some_0,
                        left.result->Ok_0,
                        right.result->Ok_0,
                    ),
                    state: right.state,
                }
            }
        }
    } else {
        done(spec_empty(), state)
    }
}

/// A parenthesised expression: the value of what stands inside, or
/// nothing.
pub open spec fn spec_eval_expr_paren(
    answers: Answers,
    node: NodeView,
    state: RuntimeView,
    fuel: nat,
) -> Outcome
    decreases fuel, 3nat, 0nat,
{
    if node.children.len() == 0 {
        done(spec_empty_from(node.token), state)
    } else if node.children.len() == 1 {
        spec_eval_expr(answers, node.children[0], state, fuel)
    } else {
        fail(
            spec_ast_error(
                node,
                "Expr(Paren) has more than one children; likely a parsing error"@,
            ),
            state,
        )
    }
}

/// A negated expression.
pub open spec fn spec_eval_expr_negated(
    answers: Answers,
    node: NodeView,
    state: RuntimeView,
    fuel: nat,
) -> Outcome
    decreases fuel, 3nat, 0nat,
{
    if !(node.ast_type is Expr) {
        fail(
            spec_ast_error(
                node,
                "Expected Expr. eval_expr_negated called on non-expr, likely internal error"@,
            ),
            state,
        )
    } else if node.children.len() == 0 {
        done(spec_empty_from(node.token), state)
    } else if node.children.len() == 1 {
        let inner = spec_eval_expr(answers, node.children[0], state, fuel);
        if inner.result is Err {
            inner
        } else {
            Outcome { result: spec_lox_negate(answers, inner.result->Ok_0), state: inner.state }
        }
    } else {
        fail(
            spec_ast_error(
                node,
                "Expr(Paren) has more than one children; likely a parsing error"@,
            ),
            state,
        )
    }
}

/// The members of a tuple from the `i`-th on, evaluated in order behind
/// the values `found`.
pub open spec fn spec_eval_items(
    answers: Answers,
    node: NodeView,
    i: int,
    state: RuntimeView,
    fuel: nat,
    found: Seq<ValueView>,
) -> Outcome
    decreases fuel, 2nat, node.children.len() - i,
{
    if i < 0 || i >= node.children.len() {
        done(
            ValueView {
                identifier: None,
                variable_type: TypeView::Tuple(found),
                ref_token: Some(node.token),
            },
            state,
        )
    } else {
        let item = spec_eval_expr(answers, node.children[i], state, fuel);
        if item.result is Err {
            item
        } else {
            spec_eval_items(answers, node, i + 1, item.state, fuel, found.push(item.result->Ok_0))
        }
    }
}

/// A tuple: its members evaluated in order.
pub open spec fn spec_eval_tuple(
    answers: Answers,
    node: NodeView,
    state: RuntimeView,
    fuel: nat,
) -> Outcome
    decreases fuel, 3nat, 0nat,
{
    spec_eval_items(answers, node, 0, state, fuel, Seq::empty())
}

/// The stack in which the innermost scope binds the parameters from the
/// `i`-th on to the arguments at their positions.
pub open spec fn spec_bind(
    stack: Seq<ScopeView>,
    lexemes: Seq<Seq<char>>,
    items: Seq<ValueView>,
    i: int,
) -> Seq<ScopeView>
    decreases lexemes.len() - i,
{
    if i < 0 || i >= lexemes.len() || i >= items.len() {
        stack
    } else {
        spec_bind(
            spec_push(
                stack,
                ValueView {
                    identifier: Some(lexemes[i]),
                    variable_type: items[i].variable_type,
                    ref_token: items[i].ref_token,
                },
            ),
            lexemes,
            items,
            i + 1,
        )
    }
}

/// The call of a function of the language: in a scope of its own, the
/// parameters are bound to the arguments and the body runs; the scope
/// goes, whatever the body came to.
pub open spec fn spec_run_lox_function(
    answers: Answers,
    function: FunctionView,
    input: ValueView,
    state: RuntimeView,
    fuel: nat,
) -> Outcome
    decreases fuel, 3nat, 0nat,
{
    match input.variable_type {
        TypeView::Tuple(items) => if spec_count_present(items) != function.lexemes.len() {
            fail(
                spec_value_error(
                    input,
                    spec_wrong_count(function.lexemes.len(), spec_count_present(items)),
                ),
                state,
            )
        } else {
            let inside = RuntimeView {
                stack: spec_bind(spec_new_scope(state.stack), function.lexemes, items, 0),
                ..state
            };
            let body = spec_run(answers, function.content, inside, fuel);
            Outcome {
                result: body.result,
                state: RuntimeView { stack: spec_pop_scope(body.state.stack), ..body.state },
            }
        },
        _ => fail(
            spec_value_error(
                input,
                "run_lox_function called with non tuple argument, likely an internal error"@,
            ),
            state,
        ),
    }
}

/// A function call: the arguments, made a tuple, go to the function that
/// the name is bound to. A name bound to anything but a function is an
/// error.
pub open spec fn spec_eval_expr_function(
    answers: Answers,
    node: NodeView,
    state: RuntimeView,
    fuel: nat,
) -> Outcome
    decreases fuel, 4nat, 0nat,
{
    if node.ast_type != AST_Type::Expr(ExprType::Function) {
        fail(
            spec_ast_error(
                node,
                "eval_expr_function called on non-function, likely internal error"@,
            ),
            state,
        )
    } else if node.children.len() != 1 || node.children[0].ast_type != AST_Type::Expr(
        ExprType::Paren,
    ) {
        fail(spec_ast_error(node, "Error in function call, could be internal error"@), state)
    } else {
        let arguments = spec_eval_expr(answers, node.children[0], state, fuel);
        if arguments.result is Err {
            arguments
        } else {
            let input = spec_to_tuple(arguments.result->Ok_0);
            let after = arguments.state;
            match spec_lookup(after.stack, node.token.lexeme) {
                None => fail(
                    spec_undeclared_error(
                        node.token.lexeme,
                        node.token.line,
                        node.token.column,
                        node.token.source_file,
                    ),
                    after,
                ),
                Some(function) => match function.variable_type {
                    TypeView::StdFunction(StdFunction::Print) => match spec_print_lox(
                        answers,
                        input,
                    ) {
                        Ok(line) => done(
                            spec_empty(),
                            RuntimeView { output: after.output.push(line), ..after },
                        ),
                        Err(e) => fail(e, after),
                    },
                    TypeView::LoxFunction(defined) => spec_run_lox_function(
                        answers,
                        defined,
                        input,
                        after,
                        fuel,
                    ),
                    _ => fail(spec_ast_error(node, "Called value is not a function"@), after),
                },
            }
        }
    }
}

/// The statements from the `i`-th on, run in order; `last` is the value
/// of the statement before them.
pub open spec fn spec_run_statements(
    answers: Answers,
    node: NodeView,
    i: int,
    state: RuntimeView,
    fuel: nat,
    last: ValueView,
) -> Outcome
    decreases fuel, 2nat, node.children.len() - i,
{
    if i < 0 || i >= node.children.len() {
        done(last, state)
    } else {
        let step = spec_run(answers, node.children[i], state, fuel);
        if step.result is Err {
            step
        } else {
            spec_run_statements(answers, node, i + 1, step.state, fuel, step.result->Ok_0)
        }
    }
}

/// The children of a node run in order: the value of the last one, or
/// nothing where there is none.
pub open spec fn spec_execute_compound_stmt(
    answers: Answers,
    node: NodeView,
    state: RuntimeView,
    fuel: nat,
) -> Outcome
    decreases fuel, 3nat, 0nat,
{
    spec_run_statements(answers, node, 0, state, fuel, spec_empty())
}

/// A braced statement: its children run in a scope of their own, which
/// goes whatever they came to.
pub open spec fn spec_exec_braced_stmt(
    answers: Answers,
    node: NodeView,
    state: RuntimeView,
    fuel: nat,
) -> Outcome
    decreases fuel, 4nat, 0nat,
{
    let inside = spec_execute_compound_stmt(
        answers,
        node,
        RuntimeView { stack: spec_new_scope(state.stack), ..state },
        fuel,
    );
    Outcome {
        result: inside.result,
        state: RuntimeView { stack: spec_pop_scope(inside.state.stack), ..inside.state },
    }
}

/// An assignment: the value goes to the innermost binding of the name,
/// which has to exist.
pub open spec fn spec_exec_assignment(
    answers: Answers,
    node: NodeView,
    state: RuntimeView,
    fuel: nat,
) -> Outcome
    decreases fuel, 3nat, 0nat,
{
    if node.children.len() != 2 {
        fail(spec_ast_error(node, "Expected 2 children, likely a parsing error"@), state)
    } else {
        let left = node.children[0];
        let right = spec_eval_expr(answers, node.children[1], state, fuel);
        if right.result is Err {
            right
        } else {
            let name = left.token.lexeme;
            match spec_lookup(right.state.stack, name) {
                None => fail(
                    spec_undeclared_error(
                        name,
                        left.token.line,
                        left.token.column,
                        left.token.source_file,
                    ),
                    right.state,
                ),
                Some(_) => {
                    let value = ValueView {
                        identifier: Some(name),
                        variable_type: right.result->Ok_0.variable_type,
                        ref_token: Some(node.token),
                    };
                    done(
                        value,
                        RuntimeView {
                            stack: spec_rebind(right.state.stack, name, value),
                            ..right.state
                        },
                    )
                },
            }
        }
    }
}

/// A compound assignment: the operator applied to the variable's value
/// and the right-hand side goes back into the variable.
pub open spec fn spec_exec_something_equal(
    answers: Answers,
    node: NodeView,
    operator: BinaryOperator,
    state: RuntimeView,
    fuel: nat,
) -> Outcome
    decreases fuel, 3nat, 0nat,
{
    if node.children.len() != 2 {
        fail(spec_ast_error(node, "Expected 2 children, likely a parsing error"@), state)
    } else {
        let left = node.children[0];
        let right = spec_eval_expr(answers, node.children[1], state, fuel);
        if right.result is Err {
            right
        } else {
            let name = left.token.lexeme;
            match spec_lookup(right.state.stack, name) {
                None => fail(
                    spec_undeclared_error(
                        name,
                        left.token.line,
                        left.token.column,
                        left.token.source_file,
                    ),
                    right.state,
                ),
                Some(variable) => match spec_apply(
                    answers,
                    operator,
                    variable,
                    right.result->Ok_0,
                ) {
                    Err(e) => fail(e, right.state),
                    Ok(res) => {
                        let value = ValueView {
                            identifier: Some(name),
                            variable_type: res.variable_type,
                            ref_token: variable.ref_token,
                        };
                        done(
                            value,
                            RuntimeView {
                                stack: spec_rebind(right.state.stack, name, value),
                                ..right.state
                            },
                        )
                    },
                },
            }
        }
    }
}

/// A declaration: the value of the right-hand side of the assignment
/// inside is bound to the name in the innermost scope.
pub open spec fn spec_exec_declaration(
    answers: Answers,
    node: NodeView,
    state: RuntimeView,
    fuel: nat,
) -> Outcome
    decreases fuel, 3nat, 0nat,
{
    if node.children.len() != 1 {
        fail(
            spec_ast_error(node, "Expected 1 children for declaration, likely a parsing error"@),
            state,
        )
    } else if node.children[0].children.len() != 2 {
        fail(
            spec_ast_error(node, "Expected 2 children for assignment, likely a parsing error"@),
            state,
        )
    } else {
        let left = node.children[0].children[0];
        let right = spec_eval_expr(answers, node.children[0].children[1], state, fuel);
        if right.result is Err {
            right
        } else {
            let value = ValueView {
                identifier: Some(left.token.lexeme),
                variable_type: right.result->Ok_0.variable_type,
                ref_token: Some(node.token),
            };
            done(
                spec_empty(),
                RuntimeView { stack: spec_push(right.state.stack, value), ..right.state },
            )
        }
    }
}

/// What the check of a condition comes to: whether it holds, or the error.
pub struct Verdict {
    pub result: Result<bool, ErrorView>,
    pub state: RuntimeView,
}

/// The condition of a conditional or of one of its `else if` clauses:
/// the value of the first child, which has to be a truth value, with a
/// braced statement behind it.
pub open spec fn spec_condition(
    answers: Answers,
    node: NodeView,
    state: RuntimeView,
    fuel: nat,
) -> Verdict
    decreases fuel, 3nat, 0nat,
{
    if node.ast_type != AST_Type::Stmt(StmtType::If) && node.ast_type != AST_Type::Stmt(
        StmtType::Elseif,
    ) {
        Verdict {
            result: Err(
                spec_ast_error(
                    node,
                    "Expected If or else if statement. Likely internal parsing or runtime error"@,
                ),
            ),
            state,
        }
    } else if node.children.len() < 2 {
        Verdict {
            result: Err(
                spec_ast_error(
                    node,
                    "If statement requires a condition and braced statement. Only fonnd one"@,
                ),
            ),
            state,
        }
    } else {
        let condition = spec_eval_expr(answers, node.children[0], state, fuel);
        match condition.result {
            Err(e) => Verdict { result: Err(e), state: condition.state },
            Ok(value) => match value.variable_type {
                TypeView::Bool(holds) => if node.children[1].ast_type != AST_Type::Stmt(
                    StmtType::Braced,
                ) {
                    Verdict {
                        result: Err(
                            spec_ast_error(node.children[1], "Expected braced stmt after if"@),
                        ),
                        state: condition.state,
                    }
                } else {
                    Verdict { result: Ok(holds), state: condition.state }
                },
                _ => Verdict {
                    result: Err(spec_value_error(value, "Expected boolean expression after if"@)),
                    state: condition.state,
                },
            },
        }
    }
}

/// The clauses of a conditional from the `i`-th child on: the first
/// `else if` whose condition holds, or the `else`, runs its body.
pub open spec fn spec_if_clauses(
    answers: Answers,
    node: NodeView,
    i: int,
    state: RuntimeView,
    fuel: nat,
) -> Outcome
    decreases fuel, 5nat, node.children.len() - i,
{
    if i < 0 || i >= node.children.len() {
        done(spec_empty(), state)
    } else {
        let clause = node.children[i];
        if clause.ast_type == AST_Type::Stmt(StmtType::Else) {
            if clause.children.len() != 1 || clause.children[0].ast_type != AST_Type::Stmt(
                StmtType::Braced,
            ) {
                fail(spec_ast_error(clause, "Expected braced stmt after else"@), state)
            } else {
                spec_exec_braced_stmt(answers, clause.children[0], state, fuel)
            }
        } else if clause.ast_type == AST_Type::Stmt(StmtType::Elseif) {
            let verdict = spec_condition(answers, clause, state, fuel);
            match verdict.result {
                Err(e) => fail(e, verdict.state),
                Ok(holds) => if holds {
                    spec_exec_braced_stmt(answers, clause.children[1], verdict.state, fuel)
                } else {
                    spec_if_clauses(answers, node, i + 1, verdict.state, fuel)
                },
            }
        } else {
            spec_if_clauses(answers, node, i + 1, state, fuel)
        }
    }
}

/// A conditional: the body runs if the condition holds; else the clauses
/// are tried in order; where none applies the value is nothing.
pub open spec fn spec_exec_if_stmt(
    answers: Answers,
    node: NodeView,
    state: RuntimeView,
    fuel: nat,
) -> Outcome
    decreases fuel, 6nat, 0nat,
{
    let verdict = spec_condition(answers, node, state, fuel);
    match verdict.result {
        Err(e) => fail(e, verdict.state),
        Ok(holds) => if holds {
            spec_exec_braced_stmt(answers, node.children[1], verdict.state, fuel)
        } else {
            spec_if_clauses(answers, node, 2, verdict.state, fuel)
        },
    }
}

/// The rounds of a loop whose condition was just found to be `holds`;
/// `last` is the value of the round before. The loop may run `rounds`
/// more rounds.
pub open spec fn spec_while_loop(
    answers: Answers,
    node: NodeView,
    state: RuntimeView,
    fuel: nat,
    rounds: nat,
    holds: bool,
    last: ValueView,
) -> Outcome
    decreases fuel, 5nat, rounds,
{
    if !holds {
        done(last, state)
    } else if rounds == 0 {
        fail(spec_exhausted(node), state)
    } else {
        let body = spec_exec_braced_stmt(answers, node.children[1], state, fuel);
        if body.result is Err {
            body
        } else {
            let condition = spec_eval_expr(answers, node.children[0], body.state, fuel);
            match condition.result {
                Err(e) => fail(e, condition.state),
                Ok(value) => match value.variable_type {
                    TypeView::Bool(again) => spec_while_loop(
                        answers,
                        node,
                        condition.state,
                        fuel,
                        (rounds - 1) as nat,
                        again,
                        body.result->Ok_0,
                    ),
                    _ => fail(
                        spec_value_error(value, "Expected boolean expression after while"@),
                        condition.state,
                    ),
                },
            }
        }
    }
}

/// A loop: while the condition holds, the body runs, each round in a
/// scope of its own. The value is that of the last round, or nothing. A
/// loop ends with an error once it has run as many rounds as a machine
/// can count.
pub open spec fn spec_exec_while_stmt(
    answers: Answers,
    node: NodeView,
    state: RuntimeView,
    fuel: nat,
) -> Outcome
    decreases fuel, 6nat, 0nat,
{
    if node.children.len() < 2 {
        fail(
            spec_ast_error(
                node,
                "While statement requires a condition and braced statement. Only fonnd one"@,
            ),
            state,
        )
    } else {
        let condition = spec_eval_expr(answers, node.children[0], state, fuel);
        match condition.result {
            Err(e) => fail(e, condition.state),
            Ok(value) => match value.variable_type {
                TypeView::Bool(holds) => if node.children[1].ast_type != AST_Type::Stmt(
                    StmtType::Braced,
                ) {
                    fail(spec_ast_error(node, "Expected braced stmt after while"@), condition.state)
                } else {
                    spec_while_loop(
                        answers,
                        node,
                        condition.state,
                        fuel,
                        usize::MAX as nat,
                        holds,
                        spec_empty(),
                    )
                },
                _ => fail(
                    spec_value_error(value, "Expected boolean expression after while"@),
                    condition.state,
                ),
            },
        }
    }
}

/// The tuple of parameters that stands between the parentheses of a
/// function definition: nothing, one name, or a tuple of names.
pub open spec fn spec_parameters(paren: NodeView) -> NodeView {
    if paren.children.len() == 0 {
        spec_leaf(AST_Type::Tuple, spec_dummy_token())
    } else if paren.children[0].ast_type == AST_Type::Tuple {
        paren.children[0]
    } else {
        NodeView {
            ast_type: AST_Type::Tuple,
            token: paren.children[0].token,
            children: seq![paren.children[0]],
        }
    }
}

/// A function definition: the function is bound to its name in the
/// innermost scope.
pub open spec fn spec_exec_function_definition(node: NodeView, state: RuntimeView) -> Outcome {
    if node.children.len() != 3 || node.children[0].ast_type != AST_Type::Identifier
        || node.children[1].ast_type != AST_Type::Expr(ExprType::Paren)
        || node.children[2].ast_type != AST_Type::Stmt(StmtType::Braced) {
        fail(
            spec_ast_error(node, "Correct function definition is fn IDENTIFER (a,b,c) {}"@),
            state,
        )
    } else if node.children[1].children.len() > 1 {
        fail(
            spec_ast_error(node.children[1], "Expected one tuple, found multiple nodes"@),
            state,
        )
    } else {
        let function = ValueView {
            identifier: Some(node.children[0].token.lexeme),
            variable_type: TypeView::LoxFunction(
                spec_function_from_ast(spec_parameters(node.children[1]), node.children[2]),
            ),
            ref_token: Some(node.token),
        };
        done(function, RuntimeView { stack: spec_push(state.stack, function), ..state })
    }
}

/// What every evaluation owes: the outcome that the tree, the state and
/// the budget determine, and a stack as deep as it found it.
pub open spec fn evaluates_to(
    r: Result<LoxVariable, ErrorLox>,
    before: RuntimeView,
    after: RuntimeView,
    expected: Outcome,
) -> bool {
    &&& outcome_agrees(r, after, expected)
    &&& after.stack.len() == before.stack.len()
}

/// The diagnostic for an evaluation that ran out of its budget at `node`.
pub fn exhausted(node: &AST_Node) -> (r: ErrorLox)
    ensures
        r@ == spec_exhausted(node@),
{
    let mut e = ErrorLox::from_ast_node(node, "Evaluation budget exhausted");
    e.set_error_type(ErrorType::DepthExhausted);
    e
}

/// The binary operator that a token stands for.
pub fn operator_of(kind: TokenType) -> (r: Option<BinaryOperator>)
    ensures
        r == spec_operator_of(kind),
{
    match kind {
        TokenType::PLUS => Some(BinaryOperator::Add),
        TokenType::MINUS => Some(BinaryOperator::Minus),
        TokenType::STAR => Some(BinaryOperator::Multiply),
        TokenType::SLASH => Some(BinaryOperator::Divide),
        TokenType::PERCENT => Some(BinaryOperator::Modula),
        TokenType::GREATER => Some(BinaryOperator::Greater),
        TokenType::GREATER_EQUAL => Some(BinaryOperator::GreaterEqual),
        TokenType::EQUAL_EQUAL => Some(BinaryOperator::EqualEqual),
        TokenType::BANG_EQUAL => Some(BinaryOperator::BangEqual),
        TokenType::LESS => Some(BinaryOperator::Less),
        TokenType::LESS_EQUAL => Some(BinaryOperator::LessEqual),
        _ => None,
    }
}

impl Runtime {
    /// The state in which a program starts: the standard library in the
    /// base scope, an empty scope on top of it, and nothing written.
    pub fn new() -> (r: Runtime)
        ensures
            r@ == (RuntimeView {
                stack: seq![scope_map(spec_std()), Map::empty()],
                output: Seq::<Seq<char>>::empty(),
            }),
    {
        let r = Runtime {
            stack: Stack::init(crate::runtime::lox_std::get_std()),
            output: Vec::new(),
        };
        assert(crate::runtime::lox_variable::string_views(r.output@) =~= Seq::<
            Seq<char>,
        >::empty());
        r
    }

    /// Writes one line.
    pub fn write_line(&mut self, line: String)
        ensures
            final(self)@ == (RuntimeView { output: old(self)@.output.push(line@), ..old(self)@ }),
    {
        self.output.push(line);
        assert(crate::runtime::lox_variable::string_views(self.output@) =~= old(
            self,
        )@.output.push(line@));
    }

    /// Opens a scope.
    pub fn new_scope(&mut self)
        ensures
            final(self)@ == (RuntimeView {
                stack: spec_new_scope(old(self)@.stack),
                ..old(self)@
            }),
    {
        self.stack.new_scope();
    }

    /// Closes the innermost scope.
    pub fn pop_scope(&mut self)
        ensures
            final(self)@ == (RuntimeView {
                stack: spec_pop_scope(old(self)@.stack),
                ..old(self)@
            }),
    {
        self.stack.pop_scope();
    }

    /// Binds the name of `v` to `v` in the innermost scope.
    pub fn push(&mut self, v: LoxVariable)
        requires
            old(self)@.stack.len() > 0,
        ensures
            final(self)@ == (RuntimeView { stack: spec_push(old(self)@.stack, v@), ..old(self)@ }),
    {
        self.stack.push(v);
    }

    /// Puts `value` in the place of the innermost binding of `identifier`.
    pub fn rebind(&mut self, identifier: &str, value: LoxVariable)
        requires
            value@.identifier == Some(identifier@),
        ensures
            final(self)@ == (RuntimeView {
                stack: spec_rebind(old(self)@.stack, identifier@, value@),
                ..old(self)@
            }),
            final(self)@.stack.len() == old(self)@.stack.len(),
    {
        proof {
            crate::runtime::stack::lemma_locate_bounds(self@.stack, identifier@);
        }
        let _ = self.stack.rebind(identifier, value);
    }
}

/// Makes the value of a number literal from the host's answer.
pub fn literal_result(node: &AST_Node, answer: NumberAnswer) -> (r: Result<LoxVariable, ErrorLox>)
    ensures
        result_agrees(r, spec_literal_result(node@, answer@)),
{
    match answer {
        NumberAnswer::Number(n) => Ok(
            LoxVariable::new(None, LoxVariableType::NUMBER(n), Some(node.token.duplicate())),
        ),
        _ => Err(ErrorLox::from_ast_node(node, "Failed to parse NUM!")),
    }
}

/// The value of a leaf.
pub fn eval_lone_expr<H: Fn(NumberRequest) -> NumberAnswer>(host: &H, node: &AST_Node) -> (r:
    Result<LoxVariable, ErrorLox>)
    requires
        host_ready(host),
    ensures
        result_agrees(r, spec_eval_lone_expr(host_answers(host), node@)),
{
    if node.children.len() != 0 {
        return Err(
            ErrorLox::from_ast_node(
                node,
                "Internal Runtime Error: eval_lone_expr called on none lone expr",
            ),
        );
    }
    let token = &node.token;
    match token.token_type {
        TokenType::NUMBER => literal_result(
            node,
            ask(host, NumberRequest::Parse(token.lexeme.clone())),
        ),
        TokenType::STRING => Ok(
            LoxVariable::new(
                None,
                LoxVariableType::STRING(token.lexeme.clone()),
                Some(token.duplicate()),
            ),
        ),
        TokenType::TRUE => Ok(
            LoxVariable::new(None, LoxVariableType::BOOL(true), Some(token.duplicate())),
        ),
        TokenType::FALSE => Ok(
            LoxVariable::new(None, LoxVariableType::BOOL(false), Some(token.duplicate())),
        ),
        _ => Ok(LoxVariable::empty()),
    }
}

/// Evaluates a node of any kind against the state `rt`. `fuel` bounds
/// how deep evaluations may nest; where it runs out, the evaluation ends
/// with an error of the kind `DepthExhausted`. Whatever the result, the
/// stack is as deep as before, and new names are bound in its innermost
/// scope only.
#[verifier::rlimit(40)]
pub fn run<H: Fn(NumberRequest) -> NumberAnswer>(
    host: &H,
    tree: &AST_Node,
    rt: &mut Runtime,
    fuel: usize,
) -> (r: Result<LoxVariable, ErrorLox>)
    requires
        host_ready(host),
        old(rt)@.stack.len() > 0,
    ensures
        evaluates_to(
            r,
            old(rt)@,
            final(rt)@,
            spec_run(host_answers(host), tree@, old(rt)@, fuel as nat),
        ),
        spec_names_grow(old(rt)@.stack, final(rt)@.stack),
    decreases fuel, 1nat,
{
    proof {
        lemma_run_names(host_answers(host), tree@, rt@, fuel as nat);
    }
    if fuel == 0 {
        return Err(exhausted(tree));
    }
    let rest = fuel - 1;
    match tree.get_AST_Type() {
        AST_Type::Expr(_) | AST_Type::Identifier | AST_Type::Unparsed(TokenType::STRING) => {
            eval_expr(host, tree, rt, fuel)
        },
        AST_Type::Tuple => eval_tuple(host, tree, rt, rest),
        AST_Type::Stmt(kind) => {
            match kind {
                StmtType::Compound | StmtType::Normal => execute_compound_stmt(
                    host,
                    tree,
                    rt,
                    rest,
                ),
                StmtType::Assignment => exec_assignment(host, tree, rt, rest),
                StmtType::PlusEqual => exec_something_equal(
                    host,
                    tree,
                    BinaryOperator::Add,
                    rt,
                    rest,
                ),
                StmtType::MinusEqual => exec_something_equal(
                    host,
                    tree,
                    BinaryOperator::Minus,
                    rt,
                    rest,
                ),
                StmtType::StarEqual => exec_something_equal(
                    host,
                    tree,
                    BinaryOperator::Multiply,
                    rt,
                    rest,
                ),
                StmtType::SlashEqual => exec_something_equal(
                    host,
                    tree,
                    BinaryOperator::Divide,
                    rt,
                    rest,
                ),
                StmtType::PercentEqual => exec_something_equal(
                    host,
                    tree,
                    BinaryOperator::Modula,
                    rt,
                    rest,
                ),
                StmtType::Declaration => exec_declaration(host, tree, rt, rest),
                StmtType::Braced => exec_braced_stmt(host, tree, rt, rest),
                StmtType::If => exec_if_stmt(host, tree, rt, rest),
                StmtType::While => exec_while_stmt(host, tree, rt, rest),
                StmtType::FunctionDef => exec_function_definition(tree, rt),
                _ => Ok(LoxVariable::empty()),
            }
        },
        _ => Ok(LoxVariable::empty()),
    }
}

/// Evaluates an expression.
pub fn eval_expr<H: Fn(NumberRequest) -> NumberAnswer>(
    host: &H,
    node: &AST_Node,
    rt: &mut Runtime,
    fuel: usize,
) -> (r: Result<LoxVariable, ErrorLox>)
    requires
        host_ready(host),
        old(rt)@.stack.len() > 0,
    ensures
        evaluates_to(
            r,
            old(rt)@,
            final(rt)@,
            spec_eval_expr(host_answers(host), node@, old(rt)@, fuel as nat),
        ),
        spec_names_kept(old(rt)@.stack, final(rt)@.stack),
    decreases fuel, 0nat,
{
    proof {
        lemma_eval_expr_names(host_answers(host), node@, rt@, fuel as nat);
    }
    if fuel == 0 {
        return Err(exhausted(node));
    }
    let rest = fuel - 1;
    match node.get_AST_Type() {
        AST_Type::Expr(ExprType::Normal) => eval_expr_normal(host, node, rt, rest),
        AST_Type::Expr(ExprType::Function) => eval_expr_function(host, node, rt, rest),
        AST_Type::Expr(ExprType::Paren) => eval_expr_paren(host, node, rt, rest),
        AST_Type::Expr(ExprType::Negated) => eval_expr_negated(host, node, rt, rest),
        AST_Type::Identifier => stack_get_variable(&rt.stack, node.token.lexeme.as_str(), node),
        AST_Type::Tuple => eval_tuple(host, node, rt, rest),
        AST_Type::Unparsed(TokenType::STRING) => eval_lone_expr(host, node),
        _ => Err(
            ErrorLox::from_ast_node(node, "eval_expr called on non-expr, likely internal error"),
        ),
    }
}

#[verifier::rlimit(40)]
fn eval_expr_normal<H: Fn(NumberRequest) -> NumberAnswer>(
    host: &H,
    node: &AST_Node,
    rt: &mut Runtime,
    fuel: usize,
) -> (r: Result<LoxVariable, ErrorLox>)
    requires
        host_ready(host),
        old(rt)@.stack.len() > 0,
    ensures
        evaluates_to(
            r,
            old(rt)@,
            final(rt)@,
            spec_eval_expr_normal(host_answers(host), node@, old(rt)@, fuel as nat),
        ),
    decreases fuel, 3nat,
{
    let count = node.children.len();
    if count == 0 {
        return eval_lone_expr(host, node);
    }
    if count == 1 {
        return eval_expr(host, &node.children[0], rt, fuel);
    }
    if count == 2 {
        match operator_of(node.get_token_type()) {
            Some(operator) => {
                let left = match eval_expr(host, &node.children[0], rt, fuel) {
                    Ok(left) => left,
                    Err(e) => {
                        return Err(e);
                    },
                };
                let right = match eval_expr(host, &node.children[1], rt, fuel) {
                    Ok(right) => right,
                    Err(e) => {
                        return Err(e);
                    },
                };
                return apply(host, operator, &left, &right);
            },
            None => {},
        }
    }
    Ok(LoxVariable::empty())
}

fn eval_expr_paren<H: Fn(NumberRequest) -> NumberAnswer>(
    host: &H,
    node: &AST_Node,
    rt: &mut Runtime,
    fuel: usize,
) -> (r: Result<LoxVariable, ErrorLox>)
    requires
        host_ready(host),
        old(rt)@.stack.len() > 0,
    ensures
        evaluates_to(
            r,
            old(rt)@,
            final(rt)@,
            spec_eval_expr_paren(host_answers(host), node@, old(rt)@, fuel as nat),
        ),
    decreases fuel, 3nat,
{
    let count = node.children.len();
    if count == 0 {
        Ok(LoxVariable::empty_from_ast_node(node))
    } else if count == 1 {
        eval_expr(host, &node.children[0], rt, fuel)
    } else {
        Err(
            ErrorLox::from_ast_node(
                node,
                "Expr(Paren) has more than one children; likely a parsing error",
            ),
        )
    }
}

fn eval_expr_negated<H: Fn(NumberRequest) -> NumberAnswer>(
    host: &H,
    node: &AST_Node,
    rt: &mut Runtime,
    fuel: usize,
) -> (r: Result<LoxVariable, ErrorLox>)
    requires
        host_ready(host),
        old(rt)@.stack.len() > 0,
    ensures
        evaluates_to(
            r,
            old(rt)@,
            final(rt)@,
            spec_eval_expr_negated(host_answers(host), node@, old(rt)@, fuel as nat),
        ),
    decreases fuel, 3nat,
{
    if !node.is_expr() {
        return Err(
            ErrorLox::from_ast_node(
                node,
                "Expected Expr. eval_expr_negated called on non-expr, likely internal error",
            ),
        );
    }
    let count = node.children.len();
    if count == 0 {
        Ok(LoxVariable::empty_from_ast_node(node))
    } else if count == 1 {
        match eval_expr(host, &node.children[0], rt, fuel) {
            Ok(a) => lox_negate(host, &a),
            Err(e) => Err(e),
        }
    } else {
        Err(
            ErrorLox::from_ast_node(
                node,
                "Expr(Paren) has more than one children; likely a parsing error",
            ),
        )
    }
}

fn eval_tuple<H: Fn(NumberRequest) -> NumberAnswer>(
    host: &H,
    node: &AST_Node,
    rt: &mut Runtime,
    fuel: usize,
) -> (r: Result<LoxVariable, ErrorLox>)
    requires
        host_ready(host),
        old(rt)@.stack.len() > 0,
    ensures
        evaluates_to(
            r,
            old(rt)@,
            final(rt)@,
            spec_eval_tuple(host_answers(host), node@, old(rt)@, fuel as nat),
        ),
    decreases fuel, 3nat,
{
    let mut tuple: Vec<LoxVariable> = Vec::new();
    let mut i: usize = 0;
    let ghost goal = spec_eval_tuple(host_answers(host), node@, old(rt)@, fuel as nat);
    while i < node.children.len()
        invariant
            host_ready(host),
            i <= node.children@.len(),
            rt@.stack.len() == old(rt)@.stack.len(),
            old(rt)@.stack.len() > 0,
            goal == spec_eval_tuple(host_answers(host), node@, old(rt)@, fuel as nat),
            spec_eval_items(
                host_answers(host),
                node@,
                i as int,
                rt@,
                fuel as nat,
                value_views(tuple@),
            ) == goal,
        decreases node.children@.len() - i,
    {
        match eval_expr(host, &node.children[i], rt, fuel) {
            Ok(a) => {
                tuple.push(a);
            },
            Err(e) => {
                return Err(e);
            },
        }
        i += 1;
    }
    Ok(LoxVariable::new(None, LoxVariableType::TUPLE(tuple), Some(node.token.duplicate())))
}

fn execute_compound_stmt<H: Fn(NumberRequest) -> NumberAnswer>(
    host: &H,
    node: &AST_Node,
    rt: &mut Runtime,
    fuel: usize,
) -> (r: Result<LoxVariable, ErrorLox>)
    requires
        host_ready(host),
        old(rt)@.stack.len() > 0,
    ensures
        evaluates_to(
            r,
            old(rt)@,
            final(rt)@,
            spec_execute_compound_stmt(host_answers(host), node@, old(rt)@, fuel as nat),
        ),
    decreases fuel, 3nat,
{
    let mut last = LoxVariable::empty();
    let mut i: usize = 0;
    let ghost goal = spec_execute_compound_stmt(host_answers(host), node@, old(rt)@, fuel as nat);
    while i < node.children.len()
        invariant
            host_ready(host),
            i <= node.children@.len(),
            rt@.stack.len() == old(rt)@.stack.len(),
            old(rt)@.stack.len() > 0,
            goal == spec_execute_compound_stmt(host_answers(host), node@, old(rt)@, fuel as nat),
            spec_run_statements(host_answers(host), node@, i as int, rt@, fuel as nat, last@)
                == goal,
        decreases node.children@.len() - i,
    {
        match run(host, &node.children[i], rt, fuel) {
            Ok(value) => {
                last = value;
            },
            Err(e) => {
                return Err(e);
            },
        }
        i += 1;
    }
    Ok(last)
}

fn exec_braced_stmt<H: Fn(NumberRequest) -> NumberAnswer>(
    host: &H,
    node: &AST_Node,
    rt: &mut Runtime,
    fuel: usize,
) -> (r: Result<LoxVariable, ErrorLox>)
    requires
        host_ready(host),
        old(rt)@.stack.len() > 0,
    ensures
        evaluates_to(
            r,
            old(rt)@,
            final(rt)@,
            spec_exec_braced_stmt(host_answers(host), node@, old(rt)@, fuel as nat),
        ),
        spec_names_kept(old(rt)@.stack, final(rt)@.stack),
    decreases fuel, 4nat,
{
    proof {
        lemma_exec_braced_stmt_names(host_answers(host), node@, rt@, fuel as nat);
    }
    rt.new_scope();
    let res = execute_compound_stmt(host, node, rt, fuel);
    rt.pop_scope();
    res
}

#[verifier::rlimit(40)]
fn exec_assignment<H: Fn(NumberRequest) -> NumberAnswer>(
    host: &H,
    node: &AST_Node,
    rt: &mut Runtime,
    fuel: usize,
) -> (r: Result<LoxVariable, ErrorLox>)
    requires
        host_ready(host),
        old(rt)@.stack.len() > 0,
    ensures
        evaluates_to(
            r,
            old(rt)@,
            final(rt)@,
            spec_exec_assignment(host_answers(host), node@, old(rt)@, fuel as nat),
        ),
    decreases fuel, 3nat,
{
    if node.children.len() != 2 {
        return Err(ErrorLox::from_ast_node(node, "Expected 2 children, likely a parsing error"));
    }
    let left = &node.children[0];
    let right = match eval_expr(host, &node.children[1], rt, fuel) {
        Ok(right) => right,
        Err(e) => {
            return Err(e);
        },
    };
    let name = left.token.lexeme.as_str();
    let mut variable = match stack_get_variable(&rt.stack, name, left) {
        Ok(variable) => variable,
        Err(e) => {
            return Err(e);
        },
    };
    variable.set_type(right.variable_type);
    variable.set_ref_node(node.token.duplicate());
    let result = variable.duplicate();
    rt.rebind(name, variable);
    Ok(result)
}

#[verifier::rlimit(40)]
fn exec_something_equal<H: Fn(NumberRequest) -> NumberAnswer>(
    host: &H,
    node: &AST_Node,
    operator: BinaryOperator,
    rt: &mut Runtime,
    fuel: usize,
) -> (r: Result<LoxVariable, ErrorLox>)
    requires
        host_ready(host),
        old(rt)@.stack.len() > 0,
    ensures
        evaluates_to(
            r,
            old(rt)@,
            final(rt)@,
            spec_exec_something_equal(host_answers(host), node@, operator, old(rt)@, fuel as nat),
        ),
    decreases fuel, 3nat,
{
    if node.children.len() != 2 {
        return Err(ErrorLox::from_ast_node(node, "Expected 2 children, likely a parsing error"));
    }
    let left = &node.children[0];
    let right = match eval_expr(host, &node.children[1], rt, fuel) {
        Ok(right) => right,
        Err(e) => {
            return Err(e);
        },
    };
    let name = left.token.lexeme.as_str();
    let mut variable = match stack_get_variable(&rt.stack, name, left) {
        Ok(variable) => variable,
        Err(e) => {
            return Err(e);
        },
    };
    let res = match apply(host, operator, &variable, &right) {
        Ok(res) => res,
        Err(e) => {
            return Err(e);
        },
    };
    variable.set_type(res.variable_type);
    let result = variable.duplicate();
    rt.rebind(name, variable);
    Ok(result)
}

fn exec_declaration<H: Fn(NumberRequest) -> NumberAnswer>(
    host: &H,
    node: &AST_Node,
    rt: &mut Runtime,
    fuel: usize,
) -> (r: Result<LoxVariable, ErrorLox>)
    requires
        host_ready(host),
        old(rt)@.stack.len() > 0,
    ensures
        evaluates_to(
            r,
            old(rt)@,
            final(rt)@,
            spec_exec_declaration(host_answers(host), node@, old(rt)@, fuel as nat),
        ),
    decreases fuel, 3nat,
{
    if node.children.len() != 1 {
        return Err(
            ErrorLox::from_ast_node(
                node,
                "Expected 1 children for declaration, likely a parsing error",
            ),
        );
    }
    let assignment = &node.children[0];
    if assignment.children.len() != 2 {
        return Err(
            ErrorLox::from_ast_node(
                node,
                "Expected 2 children for assignment, likely a parsing error",
            ),
        );
    }
    let left = &assignment.children[0];
    let mut variable = match eval_expr(host, &assignment.children[1], rt, fuel) {
        Ok(variable) => variable,
        Err(e) => {
            return Err(e);
        },
    };
    variable.set_ref_node(node.token.duplicate());
    variable.set_identifier(left.token.lexeme.clone());
    rt.push(variable);
    Ok(LoxVariable::empty())
}

/// Calls a function of the language on its arguments.
#[verifier::rlimit(40)]
fn run_lox_function<H: Fn(NumberRequest) -> NumberAnswer>(
    host: &H,
    function: &LoxFunction,
    input: &LoxVariable,
    rt: &mut Runtime,
    fuel: usize,
) -> (r: Result<LoxVariable, ErrorLox>)
    requires
        host_ready(host),
        old(rt)@.stack.len() > 0,
    ensures
        evaluates_to(
            r,
            old(rt)@,
            final(rt)@,
            spec_run_lox_function(host_answers(host), function@, input@, old(rt)@, fuel as nat),
        ),
    decreases fuel, 3nat,
{
    let content = match &input.variable_type {
        LoxVariableType::TUPLE(content) => content,
        _ => {
            return Err(
                ErrorLox::from_lox_variable(
                    input,
                    "run_lox_function called with non tuple argument, likely an internal error",
                ),
            );
        },
    };
    let ghost items = value_views(content@);
    proof {
        lemma_count_present_bound(items);
    }
    let input_length = match input.get_tuple_length() {
        Some(n) => n,
        None => 0,
    };
    if input_length != function.lexemes.len() {
        return Err(
            ErrorLox::from_lox_variable(
                input,
                wrong_count(function.lexemes.len(), input_length).as_str(),
            ),
        );
    }
    rt.new_scope();
    let ghost opened = rt@.stack;
    let mut i: usize = 0;
    while i < function.lexemes.len()
        invariant
            i <= function.lexemes@.len(),
            function.lexemes@.len() <= content@.len(),
            items == value_views(content@),
            rt@.output == old(rt)@.output,
            rt@.stack.len() == old(rt)@.stack.len() + 1,
            spec_bind(rt@.stack, function@.lexemes, items, i as int) == spec_bind(
                opened,
                function@.lexemes,
                items,
                0,
            ),
        decreases function.lexemes@.len() - i,
    {
        let tmp = LoxVariable::new(
            Some(function.lexemes[i].clone()),
            content[i].get_type(),
            content[i].get_ref_node(),
        );
        rt.push(tmp);
        i += 1;
    }
    let res = run(host, &function.content, rt, fuel);
    rt.pop_scope();
    res
}

#[verifier::rlimit(40)]
fn eval_expr_function<H: Fn(NumberRequest) -> NumberAnswer>(
    host: &H,
    node: &AST_Node,
    rt: &mut Runtime,
    fuel: usize,
) -> (r: Result<LoxVariable, ErrorLox>)
    requires
        host_ready(host),
        old(rt)@.stack.len() > 0,
    ensures
        evaluates_to(
            r,
            old(rt)@,
            final(rt)@,
            spec_eval_expr_function(host_answers(host), node@, old(rt)@, fuel as nat),
        ),
    decreases fuel, 4nat,
{
    if node.get_AST_Type() != AST_Type::Expr(ExprType::Function) {
        return Err(
            ErrorLox::from_ast_node(
                node,
                "eval_expr_function called on non-function, likely internal error",
            ),
        );
    }
    if node.children.len() != 1 || node.children[0].get_AST_Type() != AST_Type::Expr(
        ExprType::Paren,
    ) {
        return Err(
            ErrorLox::from_ast_node(node, "Error in function call, could be internal error"),
        );
    }
    let function_input = match eval_expr(host, &node.children[0], rt, fuel) {
        Ok(value) => value.to_tuple(),
        Err(e) => {
            return Err(e);
        },
    };
    let function = match stack_get_variable(&rt.stack, node.token.lexeme.as_str(), node) {
        Ok(function) => function,
        Err(e) => {
            return Err(e);
        },
    };
    match &function.variable_type {
        LoxVariableType::STD_FUNCTION(StdFunction::Print) => {
            match print_lox(host, &function_input) {
                Ok(line) => {
                    rt.write_line(line);
                    Ok(LoxVariable::empty())
                },
                Err(e) => Err(e),
            }
        },
        LoxVariableType::LOX_FUNCTION(defined) => run_lox_function(
            host,
            defined,
            &function_input,
            rt,
            fuel,
        ),
        _ => Err(ErrorLox::from_ast_node(node, "Called value is not a function")),
    }
}

/// Whether what the check of a condition returned and left behind is
/// `expected`.
pub open spec fn verdict_agrees(
    r: Result<bool, ErrorLox>,
    before: RuntimeView,
    after: RuntimeView,
    expected: Verdict,
) -> bool {
    &&& match expected.result {
        Ok(holds) => r == Ok::<bool, ErrorLox>(holds),
        Err(e) => r is Err && r->Err_0@ == e,
    }
    &&& after == expected.state
    &&& after.stack.len() == before.stack.len()
}

/// Checks the shape of a conditional, or of one of its `else if` clauses,
/// and evaluates its condition.
fn error_handle_if_stmt<H: Fn(NumberRequest) -> NumberAnswer>(
    host: &H,
    node: &AST_Node,
    rt: &mut Runtime,
    fuel: usize,
) -> (r: Result<bool, ErrorLox>)
    requires
        host_ready(host),
        old(rt)@.stack.len() > 0,
    ensures
        verdict_agrees(
            r,
            old(rt)@,
            final(rt)@,
            spec_condition(host_answers(host), node@, old(rt)@, fuel as nat),
        ),
        r is Ok ==> node@.children.len() >= 2,
    decreases fuel, 3nat,
{
    let kind = node.get_AST_Type();
    if kind != AST_Type::Stmt(StmtType::If) && kind != AST_Type::Stmt(StmtType::Elseif) {
        return Err(
            ErrorLox::from_ast_node(
                node,
                "Expected If or else if statement. Likely internal parsing or runtime error",
            ),
        );
    }
    if node.children.len() < 2 {
        return Err(
            ErrorLox::from_ast_node(
                node,
                "If statement requires a condition and braced statement. Only fonnd one",
            ),
        );
    }
    let condition = match eval_expr(host, &node.children[0], rt, fuel) {
        Ok(condition) => condition,
        Err(e) => {
            return Err(e);
        },
    };
    if !condition.is_bool() {
        return Err(
            ErrorLox::from_lox_variable(&condition, "Expected boolean expression after if"),
        );
    }
    if node.children[1].get_AST_Type() != AST_Type::Stmt(StmtType::Braced) {
        return Err(ErrorLox::from_ast_node(&node.children[1], "Expected braced stmt after if"));
    }
    Ok(condition.get_bool())
}

#[verifier::rlimit(40)]
fn exec_if_stmt<H: Fn(NumberRequest) -> NumberAnswer>(
    host: &H,
    node: &AST_Node,
    rt: &mut Runtime,
    fuel: usize,
) -> (r: Result<LoxVariable, ErrorLox>)
    requires
        host_ready(host),
        old(rt)@.stack.len() > 0,
    ensures
        evaluates_to(
            r,
            old(rt)@,
            final(rt)@,
            spec_exec_if_stmt(host_answers(host), node@, old(rt)@, fuel as nat),
        ),
    decreases fuel, 6nat,
{
    let ghost goal = spec_exec_if_stmt(host_answers(host), node@, old(rt)@, fuel as nat);
    match error_handle_if_stmt(host, node, rt, fuel) {
        Err(e) => {
            return Err(e);
        },
        Ok(holds) => {
            if holds {
                return exec_braced_stmt(host, &node.children[1], rt, fuel);
            }
        },
    }
    let mut index: usize = 2;
    while index < node.children.len()
        invariant
            host_ready(host),
            2 <= index,
            rt@.stack.len() == old(rt)@.stack.len(),
            old(rt)@.stack.len() > 0,
            goal == spec_exec_if_stmt(host_answers(host), node@, old(rt)@, fuel as nat),
            spec_if_clauses(host_answers(host), node@, index as int, rt@, fuel as nat) == goal,
        decreases node.children@.len() - index,
    {
        let clause = &node.children[index];
        let kind = clause.get_AST_Type();
        if kind == AST_Type::Stmt(StmtType::Else) {
            if clause.children.len() != 1 || clause.children[0].get_AST_Type() != AST_Type::Stmt(
                StmtType::Braced,
            ) {
                return Err(ErrorLox::from_ast_node(clause, "Expected braced stmt after else"));
            }
            return exec_braced_stmt(host, &clause.children[0], rt, fuel);
        } else if kind == AST_Type::Stmt(StmtType::Elseif) {
            match error_handle_if_stmt(host, clause, rt, fuel) {
                Err(e) => {
                    return Err(e);
                },
                Ok(holds) => {
                    if holds {
                        return exec_braced_stmt(host, &clause.children[1], rt, fuel);
                    }
                },
            }
        }
        index += 1;
    }
    Ok(LoxVariable::empty())
}

#[verifier::rlimit(40)]
fn exec_while_stmt<H: Fn(NumberRequest) -> NumberAnswer>(
    host: &H,
    node: &AST_Node,
    rt: &mut Runtime,
    fuel: usize,
) -> (r: Result<LoxVariable, ErrorLox>)
    requires
        host_ready(host),
        old(rt)@.stack.len() > 0,
    ensures
        evaluates_to(
            r,
            old(rt)@,
            final(rt)@,
            spec_exec_while_stmt(host_answers(host), node@, old(rt)@, fuel as nat),
        ),
    decreases fuel, 6nat,
{
    let ghost goal = spec_exec_while_stmt(host_answers(host), node@, old(rt)@, fuel as nat);
    if node.children.len() < 2 {
        return Err(
            ErrorLox::from_ast_node(
                node,
                "While statement requires a condition and braced statement. Only fonnd one",
            ),
        );
    }
    let condition = match eval_expr(host, &node.children[0], rt, fuel) {
        Ok(condition) => condition,
        Err(e) => {
            return Err(e);
        },
    };
    if !condition.is_bool() {
        return Err(
            ErrorLox::from_lox_variable(&condition, "Expected boolean expression after while"),
        );
    }
    if node.children[1].get_AST_Type() != AST_Type::Stmt(StmtType::Braced) {
        return Err(ErrorLox::from_ast_node(node, "Expected braced stmt after while"));
    }
    let mut holds = condition.get_bool();
    let mut res = LoxVariable::empty();
    let mut rounds: usize = usize::MAX;
    while holds
        invariant
            host_ready(host),
            node.children@.len() >= 2,
            rt@.stack.len() == old(rt)@.stack.len(),
            old(rt)@.stack.len() > 0,
            goal == spec_exec_while_stmt(host_answers(host), node@, old(rt)@, fuel as nat),
            spec_while_loop(
                host_answers(host),
                node@,
                rt@,
                fuel as nat,
                rounds as nat,
                holds,
                res@,
            ) == goal,
        decreases rounds,
    {
        if rounds == 0 {
            return Err(exhausted(node));
        }
        res = match exec_braced_stmt(host, &node.children[1], rt, fuel) {
            Ok(value) => value,
            Err(e) => {
                return Err(e);
            },
        };
        let again = match eval_expr(host, &node.children[0], rt, fuel) {
            Ok(again) => again,
            Err(e) => {
                return Err(e);
            },
        };
        if !again.is_bool() {
            return Err(
                ErrorLox::from_lox_variable(&again, "Expected boolean expression after while"),
            );
        }
        holds = again.get_bool();
        rounds -= 1;
    }
    Ok(res)
}

/// Defines a function: binds the name behind `fn` to the function with
/// the parameters between the parentheses and the braced body.
#[verifier::rlimit(40)]
pub fn exec_function_definition(tree: &AST_Node, rt: &mut Runtime) -> (r: Result<
    LoxVariable,
    ErrorLox,
>)
    requires
        old(rt)@.stack.len() > 0,
    ensures
        evaluates_to(r, old(rt)@, final(rt)@, spec_exec_function_definition(tree@, old(rt)@)),
{
    if tree.children.len() != 3 || tree.children[0].get_AST_Type() != AST_Type::Identifier
        || tree.children[1].get_AST_Type() != AST_Type::Expr(ExprType::Paren)
        || tree.children[2].get_AST_Type() != AST_Type::Stmt(StmtType::Braced) {
        return Err(
            ErrorLox::from_ast_node(tree, "Correct function definition is fn IDENTIFER (a,b,c) {}"),
        );
    }
    let identifier = tree.children[0].token.lexeme.clone();
    let paren = &tree.children[1];
    let tuple: AST_Node;
    if paren.children.len() == 0 {
        tuple = AST_Node::dummy_node(AST_Type::Tuple);
    } else if paren.children.len() == 1 {
        if paren.children[0].get_AST_Type() == AST_Type::Tuple {
            tuple = paren.children[0].duplicate();
        } else {
            let mut tmp = AST_Node::new(AST_Type::Tuple, paren.children[0].token.duplicate());
            tmp.append_child(paren.children[0].duplicate());
            assert(tmp@.children =~= seq![paren@.children[0]]);
            tuple = tmp;
        }
    } else {
        return Err(ErrorLox::from_ast_node(paren, "Expected one tuple, found multiple nodes"));
    }
    let lox_function = match LoxFunction::from_ast(&tuple, &tree.children[2]) {
        Ok(lox_function) => lox_function,
        Err(e) => {
            return Err(e);
        },
    };
    let function = LoxVariable::new(
        Some(identifier),
        LoxVariableType::LOX_FUNCTION(lox_function),
        Some(tree.token.duplicate()),
    );
    let result = function.duplicate();
    rt.push(function);
    Ok(result)
}

/// Declaration shadowing. A block that holds one declaration leaves the
/// stack as the evaluation of the declaration's right-hand side left it,
/// without the scope of the block: what the declaration binds goes with
/// the block, and no scope around the block is touched by it. In
/// particular, where the right-hand side changes no variable, the stack
/// after the block is the stack before it, and a block that follows sees
/// the bindings that were there before.
#[verifier::rlimit(40)]
pub proof fn lemma_declaration_ends_with_block(
    answers: Answers,
    block: NodeView,
    state: RuntimeView,
    fuel: nat,
)
    requires
        block.children.len() == 1,
        block.children[0].ast_type == AST_Type::Stmt(StmtType::Declaration),
    ensures
        ({
            let declaration = block.children[0];
            let inside = RuntimeView { stack: spec_new_scope(state.stack), ..state };
            let after = spec_exec_braced_stmt(answers, block, state, fuel).state.stack;
            if fuel > 0 && declaration.children.len() == 1
                && declaration.children[0].children.len() == 2 {
                let right = spec_eval_expr(
                    answers,
                    declaration.children[0].children[1],
                    inside,
                    (fuel - 1) as nat,
                );
                &&& after == spec_pop_scope(right.state.stack)
                &&& right.state.stack == inside.stack ==> after == state.stack
            } else {
                after == state.stack
            }
        }),
{
    let declaration = block.children[0];
    let inside = RuntimeView { stack: spec_new_scope(state.stack), ..state };
    let step = spec_run(answers, declaration, inside, fuel);
    assert(spec_execute_compound_stmt(answers, block, inside, fuel) == spec_run_statements(
        answers,
        block,
        0,
        inside,
        fuel,
        spec_empty(),
    ));
    if step.result is Ok {
        assert(spec_run_statements(answers, block, 1, step.state, fuel, step.result->Ok_0) == done(
            step.result->Ok_0,
            step.state,
        ));
    }
    assert(spec_pop_scope(inside.stack) =~= state.stack);
    if fuel > 0 && declaration.children.len() == 1 && declaration.children[0].children.len()
        == 2 {
        let right = spec_eval_expr(
            answers,
            declaration.children[0].children[1],
            inside,
            (fuel - 1) as nat,
        );
        assert(step == spec_exec_declaration(answers, declaration, inside, (fuel - 1) as nat));
        if right.result is Ok {
            let value = ValueView {
                identifier: Some(declaration.children[0].children[0].token.lexeme),
                variable_type: right.result->Ok_0.variable_type,
                ref_token: Some(declaration.token),
            };
            assert(spec_pop_scope(spec_push(right.state.stack, value)) =~= spec_pop_scope(
                right.state.stack,
            ));
        }
    } else if fuel > 0 {
        assert(step == spec_exec_declaration(answers, declaration, inside, (fuel - 1) as nat));
    }
}

} // verus!
