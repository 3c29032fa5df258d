//! Which names the scopes bind: an evaluation binds new names in the
//! innermost scope only, and a block or a call leaves every scope that
//! was there before with the names it had.
use crate::ast_node::{AST_Type, ExprType, NodeView, StmtType};
use crate::runtime::lox_variable::{
    spec_empty, spec_to_tuple, FunctionView, TypeView, ValueView,
};
use crate::runtime::number::Answers;
use crate::runtime::operators::{spec_apply, BinaryOperator};
use crate::runtime::stack::{
    lemma_locate_bounds, spec_locate, spec_lookup, spec_new_scope, spec_pop_scope, spec_push,
    spec_rebind, ScopeView,
};
use crate::runtime::{
    spec_bind, spec_condition, spec_eval_expr, spec_eval_expr_function, spec_eval_expr_negated,
    spec_eval_expr_normal, spec_eval_expr_paren, spec_eval_items, spec_eval_tuple,
    spec_exec_assignment, spec_exec_braced_stmt, spec_exec_declaration,
    spec_exec_function_definition, spec_exec_if_stmt, spec_exec_something_equal,
    spec_exec_while_stmt, spec_execute_compound_stmt, spec_if_clauses, spec_operator_of,
    spec_operator_of_stmt, spec_run, spec_run_lox_function, spec_run_statements, spec_while_loop,
    RuntimeView,
};
use crate::token::TokenType;
use vstd::prelude::*;

verus! {

/// Whether two stacks are equally deep and each scope of the one binds
/// the same names as the scope at its place in the other.
pub open spec fn spec_names_kept(before: Seq<ScopeView>, after: Seq<ScopeView>) -> bool {
    &&& after.len() == before.len()
    &&& forall|k: int| 0 <= k < before.len() ==> (#[trigger] after[k]).dom() =~= before[k].dom()
}

/// Whether two stacks are equally deep, every scope but the innermost
/// binds the same names in both, and the innermost scope of the second
/// binds at least the names of the innermost scope of the first.
pub open spec fn spec_names_grow(before: Seq<ScopeView>, after: Seq<ScopeView>) -> bool {
    &&& after.len() == before.len()
    &&& forall|k: int|
        0 <= k < before.len() ==> {
            &&& before[k].dom().subset_of((#[trigger] after[k]).dom())
            &&& k < before.len() - 1 ==> after[k].dom() =~= before[k].dom()
        }
}

pub proof fn lemma_kept_grows(a: Seq<ScopeView>, b: Seq<ScopeView>)
    requires
        spec_names_kept(a, b),
    ensures
        spec_names_grow(a, b),
{
    assert forall|k: int| 0 <= k < a.len() implies a[k].dom().subset_of(
        (#[trigger] b[k]).dom(),
    ) && (k < a.len() - 1 ==> b[k].dom() =~= a[k].dom()) by {
        assert(b[k].dom() =~= a[k].dom());
    }
}

pub proof fn lemma_kept_twice(a: Seq<ScopeView>, b: Seq<ScopeView>, c: Seq<ScopeView>)
    requires
        spec_names_kept(a, b),
        spec_names_kept(b, c),
    ensures
        spec_names_kept(a, c),
{
    assert forall|k: int| 0 <= k < a.len() implies (#[trigger] c[k]).dom() =~= a[k].dom() by {
        assert(b[k].dom() =~= a[k].dom());
        assert(c[k].dom() =~= b[k].dom());
    }
}

pub proof fn lemma_grow_twice(a: Seq<ScopeView>, b: Seq<ScopeView>, c: Seq<ScopeView>)
    requires
        spec_names_grow(a, b),
        spec_names_grow(b, c),
    ensures
        spec_names_grow(a, c),
{
    assert forall|k: int| 0 <= k < a.len() implies a[k].dom().subset_of(
        (#[trigger] c[k]).dom(),
    ) && (k < a.len() - 1 ==> c[k].dom() =~= a[k].dom()) by {
        assert(a[k].dom().subset_of(b[k].dom()));
        assert(b[k].dom().subset_of(c[k].dom()));
        if k < a.len() - 1 {
            assert(b[k].dom() =~= a[k].dom());
            assert(c[k].dom() =~= b[k].dom());
        }
    }
}

/// A stack keeps the names it has.
pub proof fn lemma_kept_itself(a: Seq<ScopeView>)
    ensures
        spec_names_kept(a, a),
        spec_names_grow(a, a),
{
}

/// Binding a name touches the names of the innermost scope only.
pub proof fn lemma_push_grows(stack: Seq<ScopeView>, value: ValueView)
    ensures
        spec_names_grow(stack, spec_push(stack, value)),
{
    let after = spec_push(stack, value);
    assert forall|k: int| 0 <= k < stack.len() implies stack[k].dom().subset_of(
        (#[trigger] after[k]).dom(),
    ) && (k < stack.len() - 1 ==> after[k].dom() =~= stack[k].dom()) by {}
}

/// Replacing a binding changes no name.
pub proof fn lemma_rebind_keeps(stack: Seq<ScopeView>, name: Seq<char>, value: ValueView)
    ensures
        spec_names_kept(stack, spec_rebind(stack, name, value)),
{
    lemma_locate_bounds(stack, name);
    let after = spec_rebind(stack, name, value);
    assert forall|k: int| 0 <= k < stack.len() implies (#[trigger] after[k]).dom()
        =~= stack[k].dom() by {
        if spec_locate(stack, name) == Some(k) {
            assert(stack[k].contains_key(name));
            assert(stack[k].insert(name, value).dom() =~= stack[k].dom());
        }
    }
}

/// Binding parameters touches the names of the innermost scope only.
pub proof fn lemma_bind_grows(
    stack: Seq<ScopeView>,
    lexemes: Seq<Seq<char>>,
    items: Seq<ValueView>,
    i: int,
)
    ensures
        spec_names_grow(stack, spec_bind(stack, lexemes, items, i)),
    decreases lexemes.len() - i,
{
    if i < 0 || i >= lexemes.len() || i >= items.len() {
    } else {
        let value = ValueView {
            identifier: Some(lexemes[i]),
            variable_type: items[i].variable_type,
            ref_token: items[i].ref_token,
        };
        lemma_push_grows(stack, value);
        lemma_bind_grows(spec_push(stack, value), lexemes, items, i + 1);
        lemma_grow_twice(
            stack,
            spec_push(stack, value),
            spec_bind(spec_push(stack, value), lexemes, items, i + 1),
        );
    }
}

/// What happens in a scope goes with the scope: where a scope is opened,
/// names are bound in the innermost scope only, and the scope is closed,
/// every scope that was there before has the names it had.
pub proof fn lemma_scope_closes(stack: Seq<ScopeView>, inside: Seq<ScopeView>)
    requires
        spec_names_grow(spec_new_scope(stack), inside),
    ensures
        spec_names_kept(stack, spec_pop_scope(inside)),
{
    let opened = spec_new_scope(stack);
    let after = spec_pop_scope(inside);
    assert forall|k: int| 0 <= k < stack.len() implies (#[trigger] after[k]).dom()
        =~= stack[k].dom() by {
        assert(after[k] == inside[k]);
        assert(opened[k] == stack[k]);
        assert(inside[k].dom() =~= opened[k].dom());
    }
}

/// The evaluation of a node binds new names in the innermost scope only.
pub proof fn lemma_run_names(answers: Answers, node: NodeView, state: RuntimeView, fuel: nat)
    ensures
        spec_names_grow(state.stack, spec_run(answers, node, state, fuel).state.stack),
    decreases fuel, 1nat, 0nat,
{
    lemma_kept_itself(state.stack);
    if fuel > 0 {
        let rest = (fuel - 1) as nat;
        let after = spec_run(answers, node, state, fuel).state.stack;
        match node.ast_type {
            AST_Type::Expr(_) | AST_Type::Identifier | AST_Type::Unparsed(TokenType::STRING) => {
                lemma_eval_expr_names(answers, node, state, fuel);
                lemma_kept_grows(state.stack, after);
            },
            AST_Type::Tuple => {
                lemma_eval_tuple_names(answers, node, state, rest);
                lemma_kept_grows(state.stack, after);
            },
            AST_Type::Stmt(kind) => {
                match kind {
                    StmtType::Compound | StmtType::Normal => {
                        lemma_execute_compound_stmt_names(answers, node, state, rest);
                    },
                    StmtType::Assignment => {
                        lemma_exec_assignment_names(answers, node, state, rest);
                        lemma_kept_grows(state.stack, after);
                    },
                    StmtType::PlusEqual | StmtType::MinusEqual | StmtType::StarEqual
                    | StmtType::SlashEqual | StmtType::PercentEqual => {
                        lemma_exec_something_equal_names(
                            answers,
                            node,
                            spec_operator_of_stmt(kind)->Some_0,
                            state,
                            rest,
                        );
                        lemma_kept_grows(state.stack, after);
                    },
                    StmtType::Declaration => {
                        lemma_exec_declaration_names(answers, node, state, rest);
                    },
                    StmtType::Braced => {
                        lemma_exec_braced_stmt_names(answers, node, state, rest);
                        lemma_kept_grows(state.stack, after);
                    },
                    StmtType::If => {
                        lemma_exec_if_stmt_names(answers, node, state, rest);
                        lemma_kept_grows(state.stack, after);
                    },
                    StmtType::While => {
                        lemma_exec_while_stmt_names(answers, node, state, rest);
                        lemma_kept_grows(state.stack, after);
                    },
                    StmtType::FunctionDef => {
                        lemma_exec_function_definition_names(node, state);
                    },
                    _ => {},
                }
            },
            _ => {},
        }
    }
}

/// The evaluation of an expression binds no new name in any scope that
/// was there before.
pub proof fn lemma_eval_expr_names(
    answers: Answers,
    node: NodeView,
    state: RuntimeView,
    fuel: nat,
)
    ensures
        spec_names_kept(state.stack, spec_eval_expr(answers, node, state, fuel).state.stack),
    decreases fuel, 0nat, 0nat,
{
    lemma_kept_itself(state.stack);
    if fuel > 0 {
        let rest = (fuel - 1) as nat;
        match node.ast_type {
            AST_Type::Expr(ExprType::Normal) => {
                lemma_eval_expr_normal_names(answers, node, state, rest);
            },
            AST_Type::Expr(ExprType::Function) => {
                lemma_eval_expr_function_names(answers, node, state, rest);
            },
            AST_Type::Expr(ExprType::Paren) => {
                lemma_eval_expr_paren_names(answers, node, state, rest);
            },
            AST_Type::Expr(ExprType::Negated) => {
                lemma_eval_expr_negated_names(answers, node, state, rest);
            },
            AST_Type::Tuple => {
                lemma_eval_tuple_names(answers, node, state, rest);
            },
            _ => {},
        }
    }
}

pub proof fn lemma_eval_expr_normal_names(
    answers: Answers,
    node: NodeView,
    state: RuntimeView,
    fuel: nat,
)
    ensures
        spec_names_kept(state.stack, spec_eval_expr_normal(answers, node, state, fuel).state.stack),
    decreases fuel, 3nat, 0nat,
{
    lemma_kept_itself(state.stack);
    if node.children.len() == 0 {
    } else if node.children.len() == 1 {
        lemma_eval_expr_names(answers, node.children[0], state, fuel);
    } else if node.children.len() == 2 && spec_operator_of(node.token.token_type) is Some {
        lemma_eval_expr_names(answers, node.children[0], state, fuel);
        let left = spec_eval_expr(answers, node.children[0], state, fuel);
        if left.result is Ok {
            lemma_eval_expr_names(answers, node.children[1], left.state, fuel);
            let right = spec_eval_expr(answers, node.children[1], left.state, fuel);
            lemma_kept_twice(state.stack, left.state.stack, right.state.stack);
        }
    }
}

pub proof fn lemma_eval_expr_paren_names(
    answers: Answers,
    node: NodeView,
    state: RuntimeView,
    fuel: nat,
)
    ensures
        spec_names_kept(state.stack, spec_eval_expr_paren(answers, node, state, fuel).state.stack),
    decreases fuel, 3nat, 0nat,
{
    lemma_kept_itself(state.stack);
    if node.children.len() == 1 {
        lemma_eval_expr_names(answers, node.children[0], state, fuel);
    }
}

pub proof fn lemma_eval_expr_negated_names(
    answers: Answers,
    node: NodeView,
    state: RuntimeView,
    fuel: nat,
)
    ensures
        spec_names_kept(
            state.stack,
            spec_eval_expr_negated(answers, node, state, fuel).state.stack,
        ),
    decreases fuel, 3nat, 0nat,
{
    lemma_kept_itself(state.stack);
    if node.ast_type is Expr && node.children.len() == 1 {
        lemma_eval_expr_names(answers, node.children[0], state, fuel);
    }
}

pub proof fn lemma_eval_items_names(
    answers: Answers,
    node: NodeView,
    i: int,
    state: RuntimeView,
    fuel: nat,
    found: Seq<ValueView>,
)
    ensures
        spec_names_kept(
            state.stack,
            spec_eval_items(answers, node, i, state, fuel, found).state.stack,
        ),
    decreases fuel, 2nat, node.children.len() - i,
{
    lemma_kept_itself(state.stack);
    if i < 0 || i >= node.children.len() {
    } else {
        lemma_eval_expr_names(answers, node.children[i], state, fuel);
        let item = spec_eval_expr(answers, node.children[i], state, fuel);
        if item.result is Ok {
            let more = found.push(item.result->Ok_0);
            lemma_eval_items_names(answers, node, i + 1, item.state, fuel, more);
            lemma_kept_twice(
                state.stack,
                item.state.stack,
                spec_eval_items(answers, node, i + 1, item.state, fuel, more).state.stack,
            );
        }
    }
}

pub proof fn lemma_eval_tuple_names(
    answers: Answers,
    node: NodeView,
    state: RuntimeView,
    fuel: nat,
)
    ensures
        spec_names_kept(state.stack, spec_eval_tuple(answers, node, state, fuel).state.stack),
    decreases fuel, 3nat, 0nat,
{
    lemma_eval_items_names(answers, node, 0, state, fuel, Seq::empty());
}

/// A call leaves every scope that was there before with the names it had.
pub proof fn lemma_run_lox_function_names(
    answers: Answers,
    function: FunctionView,
    input: ValueView,
    state: RuntimeView,
    fuel: nat,
)
    ensures
        spec_names_kept(
            state.stack,
            spec_run_lox_function(answers, function, input, state, fuel).state.stack,
        ),
    decreases fuel, 3nat, 0nat,
{
    lemma_kept_itself(state.stack);
    match input.variable_type {
        TypeView::Tuple(items) => {
            if crate::runtime::lox_variable::spec_count_present(items) == function.lexemes.len() {
                let opened = spec_new_scope(state.stack);
                let bound = spec_bind(opened, function.lexemes, items, 0);
                lemma_bind_grows(opened, function.lexemes, items, 0);
                let inside = RuntimeView { stack: bound, ..state };
                lemma_run_names(answers, function.content, inside, fuel);
                let body = spec_run(answers, function.content, inside, fuel);
                lemma_grow_twice(opened, bound, body.state.stack);
                lemma_scope_closes(state.stack, body.state.stack);
            }
        },
        _ => {},
    }
}

pub proof fn lemma_eval_expr_function_names(
    answers: Answers,
    node: NodeView,
    state: RuntimeView,
    fuel: nat,
)
    ensures
        spec_names_kept(
            state.stack,
            spec_eval_expr_function(answers, node, state, fuel).state.stack,
        ),
    decreases fuel, 4nat, 0nat,
{
    lemma_kept_itself(state.stack);
    if node.ast_type != AST_Type::Expr(ExprType::Function) {
    } else if node.children.len() != 1 || node.children[0].ast_type != AST_Type::Expr(
        ExprType::Paren,
    ) {
    } else {
        lemma_eval_expr_names(answers, node.children[0], state, fuel);
        let arguments = spec_eval_expr(answers, node.children[0], state, fuel);
        if arguments.result is Ok {
            match spec_lookup(arguments.state.stack, node.token.lexeme) {
                Some(function) => {
                    match function.variable_type {
                        TypeView::LoxFunction(defined) => {
                            let input = spec_to_tuple(arguments.result->Ok_0);
                            lemma_run_lox_function_names(
                                answers,
                                defined,
                                input,
                                arguments.state,
                                fuel,
                            );
                            lemma_kept_twice(
                                state.stack,
                                arguments.state.stack,
                                spec_run_lox_function(
                                    answers,
                                    defined,
                                    input,
                                    arguments.state,
                                    fuel,
                                ).state.stack,
                            );
                        },
                        _ => {},
                    }
                },
                None => {},
            }
        }
    }
}

pub proof fn lemma_run_statements_names(
    answers: Answers,
    node: NodeView,
    i: int,
    state: RuntimeView,
    fuel: nat,
    last: ValueView,
)
    ensures
        spec_names_grow(
            state.stack,
            spec_run_statements(answers, node, i, state, fuel, last).state.stack,
        ),
    decreases fuel, 2nat, node.children.len() - i,
{
    lemma_kept_itself(state.stack);
    if i < 0 || i >= node.children.len() {
    } else {
        lemma_run_names(answers, node.children[i], state, fuel);
        let step = spec_run(answers, node.children[i], state, fuel);
        if step.result is Ok {
            lemma_run_statements_names(answers, node, i + 1, step.state, fuel, step.result->Ok_0);
            lemma_grow_twice(
                state.stack,
                step.state.stack,
                spec_run_statements(
                    answers,
                    node,
                    i + 1,
                    step.state,
                    fuel,
                    step.result->Ok_0,
                ).state.stack,
            );
        }
    }
}

pub proof fn lemma_execute_compound_stmt_names(
    answers: Answers,
    node: NodeView,
    state: RuntimeView,
    fuel: nat,
)
    ensures
        spec_names_grow(
            state.stack,
            spec_execute_compound_stmt(answers, node, state, fuel).state.stack,
        ),
    decreases fuel, 3nat, 0nat,
{
    lemma_run_statements_names(answers, node, 0, state, fuel, spec_empty());
}

/// A block leaves every scope that was there before with the names it
/// had: what is declared inside the block is bound in the scope of the
/// block and goes with it.
pub proof fn lemma_exec_braced_stmt_names(
    answers: Answers,
    node: NodeView,
    state: RuntimeView,
    fuel: nat,
)
    ensures
        spec_names_kept(state.stack, spec_exec_braced_stmt(answers, node, state, fuel).state.stack),
    decreases fuel, 4nat, 0nat,
{
    let opened = RuntimeView { stack: spec_new_scope(state.stack), ..state };
    lemma_execute_compound_stmt_names(answers, node, opened, fuel);
    lemma_scope_closes(
        state.stack,
        spec_execute_compound_stmt(answers, node, opened, fuel).state.stack,
    );
}

pub proof fn lemma_exec_assignment_names(
    answers: Answers,
    node: NodeView,
    state: RuntimeView,
    fuel: nat,
)
    ensures
        spec_names_kept(state.stack, spec_exec_assignment(answers, node, state, fuel).state.stack),
    decreases fuel, 3nat, 0nat,
{
    lemma_kept_itself(state.stack);
    if node.children.len() == 2 {
        lemma_eval_expr_names(answers, node.children[1], state, fuel);
        let right = spec_eval_expr(answers, node.children[1], state, fuel);
        if right.result is Ok {
            let name = node.children[0].token.lexeme;
            let value = ValueView {
                identifier: Some(name),
                variable_type: right.result->Ok_0.variable_type,
                ref_token: Some(node.token),
            };
            lemma_rebind_keeps(right.state.stack, name, value);
            lemma_kept_twice(
                state.stack,
                right.state.stack,
                spec_rebind(right.state.stack, name, value),
            );
        }
    }
}

pub proof fn lemma_exec_something_equal_names(
    answers: Answers,
    node: NodeView,
    operator: BinaryOperator,
    state: RuntimeView,
    fuel: nat,
)
    ensures
        spec_names_kept(
            state.stack,
            spec_exec_something_equal(answers, node, operator, state, fuel).state.stack,
        ),
    decreases fuel, 3nat, 0nat,
{
    lemma_kept_itself(state.stack);
    if node.children.len() == 2 {
        lemma_eval_expr_names(answers, node.children[1], state, fuel);
        let right = spec_eval_expr(answers, node.children[1], state, fuel);
        if right.result is Ok {
            let name = node.children[0].token.lexeme;
            match spec_lookup(right.state.stack, name) {
                Some(variable) => {
                    match spec_apply(answers, operator, variable, right.result->Ok_0) {
                        Ok(res) => {
                            let value = ValueView {
                                identifier: Some(name),
                                variable_type: res.variable_type,
                                ref_token: variable.ref_token,
                            };
                            lemma_rebind_keeps(right.state.stack, name, value);
                            lemma_kept_twice(
                                state.stack,
                                right.state.stack,
                                spec_rebind(right.state.stack, name, value),
                            );
                        },
                        Err(_) => {},
                    }
                },
                None => {},
            }
        }
    }
}

/// A declaration binds its name in the innermost scope and touches the
/// names of no other.
pub proof fn lemma_exec_declaration_names(
    answers: Answers,
    node: NodeView,
    state: RuntimeView,
    fuel: nat,
)
    ensures
        spec_names_grow(state.stack, spec_exec_declaration(answers, node, state, fuel).state.stack),
    decreases fuel, 3nat, 0nat,
{
    lemma_kept_itself(state.stack);
    if node.children.len() == 1 && node.children[0].children.len() == 2 {
        let rhs = node.children[0].children[1];
        lemma_eval_expr_names(answers, rhs, state, fuel);
        let right = spec_eval_expr(answers, rhs, state, fuel);
        lemma_kept_grows(state.stack, right.state.stack);
        if right.result is Ok {
            let value = ValueView {
                identifier: Some(node.children[0].children[0].token.lexeme),
                variable_type: right.result->Ok_0.variable_type,
                ref_token: Some(node.token),
            };
            lemma_push_grows(right.state.stack, value);
            lemma_grow_twice(
                state.stack,
                right.state.stack,
                spec_push(right.state.stack, value),
            );
        }
    }
}

pub proof fn lemma_condition_names(
    answers: Answers,
    node: NodeView,
    state: RuntimeView,
    fuel: nat,
)
    ensures
        spec_names_kept(state.stack, spec_condition(answers, node, state, fuel).state.stack),
    decreases fuel, 3nat, 0nat,
{
    lemma_kept_itself(state.stack);
    if node.children.len() >= 2 {
        lemma_eval_expr_names(answers, node.children[0], state, fuel);
    }
}

pub proof fn lemma_if_clauses_names(
    answers: Answers,
    node: NodeView,
    i: int,
    state: RuntimeView,
    fuel: nat,
)
    ensures
        spec_names_kept(state.stack, spec_if_clauses(answers, node, i, state, fuel).state.stack),
    decreases fuel, 5nat, node.children.len() - i,
{
    lemma_kept_itself(state.stack);
    if i < 0 || i >= node.children.len() {
    } else {
        let clause = node.children[i];
        if clause.ast_type == AST_Type::Stmt(StmtType::Else) {
            if clause.children.len() == 1 {
                lemma_exec_braced_stmt_names(answers, clause.children[0], state, fuel);
            }
        } else if clause.ast_type == AST_Type::Stmt(StmtType::Elseif) {
            lemma_condition_names(answers, clause, state, fuel);
            let verdict = spec_condition(answers, clause, state, fuel);
            match verdict.result {
                Ok(holds) => {
                    if holds {
                        lemma_exec_braced_stmt_names(
                            answers,
                            clause.children[1],
                            verdict.state,
                            fuel,
                        );
                        lemma_kept_twice(
                            state.stack,
                            verdict.state.stack,
                            spec_exec_braced_stmt(
                                answers,
                                clause.children[1],
                                verdict.state,
                                fuel,
                            ).state.stack,
                        );
                    } else {
                        lemma_if_clauses_names(answers, node, i + 1, verdict.state, fuel);
                        lemma_kept_twice(
                            state.stack,
                            verdict.state.stack,
                            spec_if_clauses(answers, node, i + 1, verdict.state, fuel).state.stack,
                        );
                    }
                },
                Err(_) => {},
            }
        } else {
            lemma_if_clauses_names(answers, node, i + 1, state, fuel);
        }
    }
}

pub proof fn lemma_exec_if_stmt_names(
    answers: Answers,
    node: NodeView,
    state: RuntimeView,
    fuel: nat,
)
    ensures
        spec_names_kept(state.stack, spec_exec_if_stmt(answers, node, state, fuel).state.stack),
    decreases fuel, 6nat, 0nat,
{
    lemma_condition_names(answers, node, state, fuel);
    let verdict = spec_condition(answers, node, state, fuel);
    match verdict.result {
        Ok(holds) => {
            if holds {
                lemma_exec_braced_stmt_names(answers, node.children[1], verdict.state, fuel);
                lemma_kept_twice(
                    state.stack,
                    verdict.state.stack,
                    spec_exec_braced_stmt(
                        answers,
                        node.children[1],
                        verdict.state,
                        fuel,
                    ).state.stack,
                );
            } else {
                lemma_if_clauses_names(answers, node, 2, verdict.state, fuel);
                lemma_kept_twice(
                    state.stack,
                    verdict.state.stack,
                    spec_if_clauses(answers, node, 2, verdict.state, fuel).state.stack,
                );
            }
        },
        Err(_) => {},
    }
}

pub proof fn lemma_while_loop_names(
    answers: Answers,
    node: NodeView,
    state: RuntimeView,
    fuel: nat,
    rounds: nat,
    holds: bool,
    last: ValueView,
)
    ensures
        spec_names_kept(
            state.stack,
            spec_while_loop(answers, node, state, fuel, rounds, holds, last).state.stack,
        ),
    decreases fuel, 5nat, rounds,
{
    lemma_kept_itself(state.stack);
    if holds && rounds > 0 {
        lemma_exec_braced_stmt_names(answers, node.children[1], state, fuel);
        let body = spec_exec_braced_stmt(answers, node.children[1], state, fuel);
        if body.result is Ok {
            lemma_eval_expr_names(answers, node.children[0], body.state, fuel);
            let condition = spec_eval_expr(answers, node.children[0], body.state, fuel);
            lemma_kept_twice(state.stack, body.state.stack, condition.state.stack);
            match condition.result {
                Ok(value) => {
                    match value.variable_type {
                        TypeView::Bool(again) => {
                            lemma_while_loop_names(
                                answers,
                                node,
                                condition.state,
                                fuel,
                                (rounds - 1) as nat,
                                again,
                                body.result->Ok_0,
                            );
                            lemma_kept_twice(
                                state.stack,
                                condition.state.stack,
                                spec_while_loop(
                                    answers,
                                    node,
                                    condition.state,
                                    fuel,
                                    (rounds - 1) as nat,
                                    again,
                                    body.result->Ok_0,
                                ).state.stack,
                            );
                        },
                        _ => {},
                    }
                },
                Err(_) => {},
            }
        }
    }
}

pub proof fn lemma_exec_while_stmt_names(
    answers: Answers,
    node: NodeView,
    state: RuntimeView,
    fuel: nat,
)
    ensures
        spec_names_kept(state.stack, spec_exec_while_stmt(answers, node, state, fuel).state.stack),
    decreases fuel, 6nat, 0nat,
{
    lemma_kept_itself(state.stack);
    if node.children.len() >= 2 {
        lemma_eval_expr_names(answers, node.children[0], state, fuel);
        let condition = spec_eval_expr(answers, node.children[0], state, fuel);
        match condition.result {
            Ok(value) => {
                match value.variable_type {
                    TypeView::Bool(holds) => {
                        lemma_while_loop_names(
                            answers,
                            node,
                            condition.state,
                            fuel,
                            usize::MAX as nat,
                            holds,
                            spec_empty(),
                        );
                        lemma_kept_twice(
                            state.stack,
                            condition.state.stack,
                            spec_while_loop(
                                answers,
                                node,
                                condition.state,
                                fuel,
                                usize::MAX as nat,
                                holds,
                                spec_empty(),
                            ).state.stack,
                        );
                    },
                    _ => {},
                }
            },
            Err(_) => {},
        }
    }
}

/// A function definition binds its name in the innermost scope and
/// touches the names of no other.
pub proof fn lemma_exec_function_definition_names(node: NodeView, state: RuntimeView)
    ensures
        spec_names_grow(state.stack, spec_exec_function_definition(node, state).state.stack),
{
    lemma_kept_itself(state.stack);
    let after = spec_exec_function_definition(node, state);
    if after.result is Ok {
        lemma_push_grows(state.stack, after.result->Ok_0);
    }
}

} // verus!
