//! Scope discipline: whatever a program does, and whether it ends in a
//! value or in an error, an evaluation leaves the stack as deep as it
//! found it.
use crate::ast_node::{AST_Type, ExprType, NodeView, StmtType};
use crate::runtime::lox_variable::{FunctionView, TypeView, ValueView};
use crate::runtime::number::Answers;
use crate::runtime::operators::{spec_apply, BinaryOperator};
use crate::runtime::stack::{
    lemma_locate_bounds, spec_lookup, spec_new_scope, spec_push, spec_rebind,
    ScopeView,
};
use crate::runtime::{
    spec_bind, spec_condition, spec_eval_expr, spec_eval_expr_function, spec_eval_expr_negated,
    spec_eval_expr_normal, spec_eval_expr_paren, spec_eval_items, spec_eval_tuple,
    spec_exec_assignment, spec_exec_braced_stmt, spec_exec_declaration,
    spec_exec_function_definition, spec_exec_if_stmt, spec_exec_something_equal,
    spec_exec_while_stmt, spec_execute_compound_stmt, spec_if_clauses, spec_operator_of,
    spec_operator_of_stmt, spec_run, spec_run_lox_function, spec_run_statements, spec_while_loop,
    RuntimeView,
};
use crate::token::TokenType;
use vstd::prelude::*;

verus! {

/// Binding a name changes no depth.
pub proof fn lemma_push_depth(stack: Seq<ScopeView>, value: ValueView)
    ensures
        spec_push(stack, value).len() == stack.len(),
{
}

/// Replacing a binding changes no depth.
pub proof fn lemma_rebind_depth(stack: Seq<ScopeView>, name: Seq<char>, value: ValueView)
    ensures
        spec_rebind(stack, name, value).len() == stack.len(),
{
    lemma_locate_bounds(stack, name);
}

/// Binding parameters changes no depth.
pub proof fn lemma_bind_depth(
    stack: Seq<ScopeView>,
    lexemes: Seq<Seq<char>>,
    items: Seq<ValueView>,
    i: int,
)
    ensures
        spec_bind(stack, lexemes, items, i).len() == stack.len(),
    decreases lexemes.len() - i,
{
    if i < 0 || i >= lexemes.len() || i >= items.len() {
    } else {
        let value = ValueView {
            identifier: Some(lexemes[i]),
            variable_type: items[i].variable_type,
            ref_token: items[i].ref_token,
        };
        lemma_push_depth(stack, value);
        lemma_bind_depth(spec_push(stack, value), lexemes, items, i + 1);
    }
}

/// Scope discipline: the evaluation of a node leaves the stack as deep as
/// it found it, whether it ends in a value or in an error.
pub proof fn lemma_run_depth(answers: Answers, node: NodeView, state: RuntimeView, fuel: nat)
    ensures
        spec_run(answers, node, state, fuel).state.stack.len() == state.stack.len(),
    decreases fuel, 1nat, 0nat,
{
    if fuel > 0 {
        let rest = (fuel - 1) as nat;
        match node.ast_type {
            AST_Type::Expr(_) | AST_Type::Identifier | AST_Type::Unparsed(TokenType::STRING) => {
                lemma_eval_expr_depth(answers, node, state, fuel);
            },
            AST_Type::Tuple => {
                lemma_eval_tuple_depth(answers, node, state, rest);
            },
            AST_Type::Stmt(kind) => {
                match kind {
                    StmtType::Compound | StmtType::Normal => {
                        lemma_execute_compound_stmt_depth(answers, node, state, rest);
                    },
                    StmtType::Assignment => {
                        lemma_exec_assignment_depth(answers, node, state, rest);
                    },
                    StmtType::PlusEqual | StmtType::MinusEqual | StmtType::StarEqual
                    | StmtType::SlashEqual | StmtType::PercentEqual => {
                        lemma_exec_something_equal_depth(
                            answers,
                            node,
                            spec_operator_of_stmt(kind)->Some_0,
                            state,
                            rest,
                        );
                    },
                    StmtType::Declaration => {
                        lemma_exec_declaration_depth(answers, node, state, rest);
                    },
                    StmtType::Braced => {
                        lemma_exec_braced_stmt_depth(answers, node, state, rest);
                    },
                    StmtType::If => {
                        lemma_exec_if_stmt_depth(answers, node, state, rest);
                    },
                    StmtType::While => {
                        lemma_exec_while_stmt_depth(answers, node, state, rest);
                    },
                    StmtType::FunctionDef => {
                        lemma_exec_function_definition_depth(node, state);
                    },
                    _ => {},
                }
            },
            _ => {},
        }
    }
}

pub proof fn lemma_eval_expr_depth(
    answers: Answers,
    node: NodeView,
    state: RuntimeView,
    fuel: nat,
)
    ensures
        spec_eval_expr(answers, node, state, fuel).state.stack.len() == state.stack.len(),
    decreases fuel, 0nat, 0nat,
{
    if fuel > 0 {
        let rest = (fuel - 1) as nat;
        match node.ast_type {
            AST_Type::Expr(ExprType::Normal) => {
                lemma_eval_expr_normal_depth(answers, node, state, rest);
            },
            AST_Type::Expr(ExprType::Function) => {
                lemma_eval_expr_function_depth(answers, node, state, rest);
            },
            AST_Type::Expr(ExprType::Paren) => {
                lemma_eval_expr_paren_depth(answers, node, state, rest);
            },
            AST_Type::Expr(ExprType::Negated) => {
                lemma_eval_expr_negated_depth(answers, node, state, rest);
            },
            AST_Type::Tuple => {
                lemma_eval_tuple_depth(answers, node, state, rest);
            },
            _ => {},
        }
    }
}

pub proof fn lemma_eval_expr_normal_depth(
    answers: Answers,
    node: NodeView,
    state: RuntimeView,
    fuel: nat,
)
    ensures
        spec_eval_expr_normal(answers, node, state, fuel).state.stack.len() == state.stack.len(),
    decreases fuel, 3nat, 0nat,
{
    if node.children.len() == 0 {
    } else if node.children.len() == 1 {
        lemma_eval_expr_depth(answers, node.children[0], state, fuel);
    } else if node.children.len() == 2 && spec_operator_of(node.token.token_type) is Some {
        lemma_eval_expr_depth(answers, node.children[0], state, fuel);
        let left = spec_eval_expr(answers, node.children[0], state, fuel);
        if left.result is Ok {
            lemma_eval_expr_depth(answers, node.children[1], left.state, fuel);
        }
    }
}

pub proof fn lemma_eval_expr_paren_depth(
    answers: Answers,
    node: NodeView,
    state: RuntimeView,
    fuel: nat,
)
    ensures
        spec_eval_expr_paren(answers, node, state, fuel).state.stack.len() == state.stack.len(),
    decreases fuel, 3nat, 0nat,
{
    if node.children.len() == 1 {
        lemma_eval_expr_depth(answers, node.children[0], state, fuel);
    }
}

pub proof fn lemma_eval_expr_negated_depth(
    answers: Answers,
    node: NodeView,
    state: RuntimeView,
    fuel: nat,
)
    ensures
        spec_eval_expr_negated(answers, node, state, fuel).state.stack.len() == state.stack.len(),
    decreases fuel, 3nat, 0nat,
{
    if node.ast_type is Expr && node.children.len() == 1 {
        lemma_eval_expr_depth(answers, node.children[0], state, fuel);
    }
}

pub proof fn lemma_eval_items_depth(
    answers: Answers,
    node: NodeView,
    i: int,
    state: RuntimeView,
    fuel: nat,
    found: Seq<ValueView>,
)
    ensures
        spec_eval_items(answers, node, i, state, fuel, found).state.stack.len()
            == state.stack.len(),
    decreases fuel, 2nat, node.children.len() - i,
{
    if i < 0 || i >= node.children.len() {
    } else {
        lemma_eval_expr_depth(answers, node.children[i], state, fuel);
        let item = spec_eval_expr(answers, node.children[i], state, fuel);
        if item.result is Ok {
            lemma_eval_items_depth(
                answers,
                node,
                i + 1,
                item.state,
                fuel,
                found.push(item.result->Ok_0),
            );
        }
    }
}

pub proof fn lemma_eval_tuple_depth(
    answers: Answers,
    node: NodeView,
    state: RuntimeView,
    fuel: nat,
)
    ensures
        spec_eval_tuple(answers, node, state, fuel).state.stack.len() == state.stack.len(),
    decreases fuel, 3nat, 0nat,
{
    lemma_eval_items_depth(answers, node, 0, state, fuel, Seq::empty());
}

pub proof fn lemma_run_lox_function_depth(
    answers: Answers,
    function: FunctionView,
    input: ValueView,
    state: RuntimeView,
    fuel: nat,
)
    ensures
        spec_run_lox_function(answers, function, input, state, fuel).state.stack.len()
            == state.stack.len(),
    decreases fuel, 3nat, 0nat,
{
    match input.variable_type {
        TypeView::Tuple(items) => {
            let opened = spec_new_scope(state.stack);
            lemma_bind_depth(opened, function.lexemes, items, 0);
            let inside = RuntimeView {
                stack: spec_bind(opened, function.lexemes, items, 0),
                ..state
            };
            lemma_run_depth(answers, function.content, inside, fuel);
        },
        _ => {},
    }
}

pub proof fn lemma_eval_expr_function_depth(
    answers: Answers,
    node: NodeView,
    state: RuntimeView,
    fuel: nat,
)
    ensures
        spec_eval_expr_function(answers, node, state, fuel).state.stack.len()
            == state.stack.len(),
    decreases fuel, 4nat, 0nat,
{
    if node.ast_type != AST_Type::Expr(ExprType::Function) {
    } else if node.children.len() != 1 || node.children[0].ast_type != AST_Type::Expr(
        ExprType::Paren,
    ) {
    } else {
        lemma_eval_expr_depth(answers, node.children[0], state, fuel);
        let arguments = spec_eval_expr(answers, node.children[0], state, fuel);
        if arguments.result is Ok {
            match spec_lookup(arguments.state.stack, node.token.lexeme) {
                Some(function) => {
                    match function.variable_type {
                        TypeView::LoxFunction(defined) => {
                            lemma_run_lox_function_depth(
                                answers,
                                defined,
                                crate::runtime::lox_variable::spec_to_tuple(
                                    arguments.result->Ok_0,
                                ),
                                arguments.state,
                                fuel,
                            );
                        },
                        _ => {},
                    }
                },
                None => {},
            }
        }
    }
}

pub proof fn lemma_run_statements_depth(
    answers: Answers,
    node: NodeView,
    i: int,
    state: RuntimeView,
    fuel: nat,
    last: ValueView,
)
    ensures
        spec_run_statements(answers, node, i, state, fuel, last).state.stack.len()
            == state.stack.len(),
    decreases fuel, 2nat, node.children.len() - i,
{
    if i < 0 || i >= node.children.len() {
    } else {
        lemma_run_depth(answers, node.children[i], state, fuel);
        let step = spec_run(answers, node.children[i], state, fuel);
        if step.result is Ok {
            lemma_run_statements_depth(answers, node, i + 1, step.state, fuel, step.result->Ok_0);
        }
    }
}

pub proof fn lemma_execute_compound_stmt_depth(
    answers: Answers,
    node: NodeView,
    state: RuntimeView,
    fuel: nat,
)
    ensures
        spec_execute_compound_stmt(answers, node, state, fuel).state.stack.len()
            == state.stack.len(),
    decreases fuel, 3nat, 0nat,
{
    lemma_run_statements_depth(
        answers,
        node,
        0,
        state,
        fuel,
        crate::runtime::lox_variable::spec_empty(),
    );
}

/// Scope discipline of a block: the scope that a braced statement opens
/// is gone when the statement ends, in a value or in an error.
pub proof fn lemma_exec_braced_stmt_depth(
    answers: Answers,
    node: NodeView,
    state: RuntimeView,
    fuel: nat,
)
    ensures
        spec_exec_braced_stmt(answers, node, state, fuel).state.stack.len() == state.stack.len(),
    decreases fuel, 4nat, 0nat,
{
    lemma_execute_compound_stmt_depth(
        answers,
        node,
        RuntimeView { stack: spec_new_scope(state.stack), ..state },
        fuel,
    );
}

pub proof fn lemma_exec_assignment_depth(
    answers: Answers,
    node: NodeView,
    state: RuntimeView,
    fuel: nat,
)
    ensures
        spec_exec_assignment(answers, node, state, fuel).state.stack.len() == state.stack.len(),
    decreases fuel, 3nat, 0nat,
{
    if node.children.len() == 2 {
        lemma_eval_expr_depth(answers, node.children[1], state, fuel);
        let right = spec_eval_expr(answers, node.children[1], state, fuel);
        if right.result is Ok {
            let name = node.children[0].token.lexeme;
            let value = ValueView {
                identifier: Some(name),
                variable_type: right.result->Ok_0.variable_type,
                ref_token: Some(node.token),
            };
            lemma_rebind_depth(right.state.stack, name, value);
        }
    }
}

pub proof fn lemma_exec_something_equal_depth(
    answers: Answers,
    node: NodeView,
    operator: BinaryOperator,
    state: RuntimeView,
    fuel: nat,
)
    ensures
        spec_exec_something_equal(answers, node, operator, state, fuel).state.stack.len()
            == state.stack.len(),
    decreases fuel, 3nat, 0nat,
{
    if node.children.len() == 2 {
        lemma_eval_expr_depth(answers, node.children[1], state, fuel);
        let right = spec_eval_expr(answers, node.children[1], state, fuel);
        if right.result is Ok {
            let name = node.children[0].token.lexeme;
            match spec_lookup(right.state.stack, name) {
                Some(variable) => {
                    match spec_apply(answers, operator, variable, right.result->Ok_0) {
                        Ok(res) => {
                            let value = ValueView {
                                identifier: Some(name),
                                variable_type: res.variable_type,
                                ref_token: variable.ref_token,
                            };
                            lemma_rebind_depth(right.state.stack, name, value);
                        },
                        Err(_) => {},
                    }
                },
                None => {},
            }
        }
    }
}

pub proof fn lemma_exec_declaration_depth(
    answers: Answers,
    node: NodeView,
    state: RuntimeView,
    fuel: nat,
)
    ensures
        spec_exec_declaration(answers, node, state, fuel).state.stack.len() == state.stack.len(),
    decreases fuel, 3nat, 0nat,
{
    if node.children.len() == 1 && node.children[0].children.len() == 2 {
        lemma_eval_expr_depth(answers, node.children[0].children[1], state, fuel);
    }
}

pub proof fn lemma_condition_depth(
    answers: Answers,
    node: NodeView,
    state: RuntimeView,
    fuel: nat,
)
    ensures
        spec_condition(answers, node, state, fuel).state.stack.len() == state.stack.len(),
    decreases fuel, 3nat, 0nat,
{
    if node.children.len() >= 2 {
        lemma_eval_expr_depth(answers, node.children[0], state, fuel);
    }
}

pub proof fn lemma_if_clauses_depth(
    answers: Answers,
    node: NodeView,
    i: int,
    state: RuntimeView,
    fuel: nat,
)
    ensures
        spec_if_clauses(answers, node, i, state, fuel).state.stack.len() == state.stack.len(),
    decreases fuel, 5nat, node.children.len() - i,
{
    if i < 0 || i >= node.children.len() {
    } else {
        let clause = node.children[i];
        if clause.ast_type == AST_Type::Stmt(StmtType::Else) {
            if clause.children.len() == 1 {
                lemma_exec_braced_stmt_depth(answers, clause.children[0], state, fuel);
            }
        } else if clause.ast_type == AST_Type::Stmt(StmtType::Elseif) {
            lemma_condition_depth(answers, clause, state, fuel);
            let verdict = spec_condition(answers, clause, state, fuel);
            match verdict.result {
                Ok(holds) => {
                    if holds {
                        lemma_exec_braced_stmt_depth(
                            answers,
                            clause.children[1],
                            verdict.state,
                            fuel,
                        );
                    } else {
                        lemma_if_clauses_depth(answers, node, i + 1, verdict.state, fuel);
                    }
                },
                Err(_) => {},
            }
        } else {
            lemma_if_clauses_depth(answers, node, i + 1, state, fuel);
        }
    }
}

pub proof fn lemma_exec_if_stmt_depth(
    answers: Answers,
    node: NodeView,
    state: RuntimeView,
    fuel: nat,
)
    ensures
        spec_exec_if_stmt(answers, node, state, fuel).state.stack.len() == state.stack.len(),
    decreases fuel, 6nat, 0nat,
{
    lemma_condition_depth(answers, node, state, fuel);
    let verdict = spec_condition(answers, node, state, fuel);
    match verdict.result {
        Ok(holds) => {
            if holds {
                lemma_exec_braced_stmt_depth(answers, node.children[1], verdict.state, fuel);
            } else {
                lemma_if_clauses_depth(answers, node, 2, verdict.state, fuel);
            }
        },
        Err(_) => {},
    }
}

pub proof fn lemma_while_loop_depth(
    answers: Answers,
    node: NodeView,
    state: RuntimeView,
    fuel: nat,
    rounds: nat,
    holds: bool,
    last: ValueView,
)
    ensures
        spec_while_loop(answers, node, state, fuel, rounds, holds, last).state.stack.len()
            == state.stack.len(),
    decreases fuel, 5nat, rounds,
{
    if holds && rounds > 0 {
        lemma_exec_braced_stmt_depth(answers, node.children[1], state, fuel);
        let body = spec_exec_braced_stmt(answers, node.children[1], state, fuel);
        if body.result is Ok {
            lemma_eval_expr_depth(answers, node.children[0], body.state, fuel);
            let condition = spec_eval_expr(answers, node.children[0], body.state, fuel);
            match condition.result {
                Ok(value) => {
                    match value.variable_type {
                        TypeView::Bool(again) => {
                            lemma_while_loop_depth(
                                answers,
                                node,
                                condition.state,
                                fuel,
                                (rounds - 1) as nat,
                                again,
                                body.result->Ok_0,
                            );
                        },
                        _ => {},
                    }
                },
                Err(_) => {},
            }
        }
    }
}

pub proof fn lemma_exec_while_stmt_depth(
    answers: Answers,
    node: NodeView,
    state: RuntimeView,
    fuel: nat,
)
    ensures
        spec_exec_while_stmt(answers, node, state, fuel).state.stack.len() == state.stack.len(),
    decreases fuel, 6nat, 0nat,
{
    if node.children.len() >= 2 {
        lemma_eval_expr_depth(answers, node.children[0], state, fuel);
        let condition = spec_eval_expr(answers, node.children[0], state, fuel);
        match condition.result {
            Ok(value) => {
                match value.variable_type {
                    TypeView::Bool(holds) => {
                        lemma_while_loop_depth(
                            answers,
                            node,
                            condition.state,
                            fuel,
                            usize::MAX as nat,
                            holds,
                            crate::runtime::lox_variable::spec_empty(),
                        );
                    },
                    _ => {},
                }
            },
            Err(_) => {},
        }
    }
}

pub proof fn lemma_exec_function_definition_depth(node: NodeView, state: RuntimeView)
    ensures
        spec_exec_function_definition(node, state).state.stack.len() == state.stack.len(),
{
}

} // verus!
