//! The shape of syntax trees: the classification of a node decides how
//! many children it has and of which kinds, and no rewrite pass breaks
//! this.
use crate::ast_node::{spec_leaf, AST_Type, ExprType, NodeView, StmtType};
use crate::parse_tree_unfinished::{spec_is_stmt_sep, spec_leaves_of};
use crate::parser::{
    lemma_parse_delimiters_len, spec_adopt, spec_brace_region, spec_comma_operands,
    spec_comma_run, spec_delimiter_location, spec_delimiter_scan,
    spec_fold_delimited, spec_is_callee, spec_is_comma, spec_is_operator, spec_left_assoc_from,
    spec_paren_region, spec_parse_assignment_like_from, spec_parse_comma_from,
    spec_parse_compound_from, spec_parse_delimiters, spec_parse_function_call_from,
    spec_parse_function_definition_from, spec_parse_if_from, spec_parse_prefix_from,
    spec_parse_stmt_sep_from, spec_parse_ternary_stmt_like_while_from, spec_pass,
    spec_passes_from, spec_real_parse, spec_region_type, spec_rvalues, spec_splice,
    spec_statements_of, spec_tree_of, spec_valid_before_minus, spec_valid_before_var,
    DelimiterScan, ParseView, PASS_COUNT,
};
use crate::parser_properties::lemma_real_parse_len;
use crate::token::{spec_dummy_token, TokenType, TokenView};
use vstd::prelude::*;

verus! {

/// Whether a classification is that of a node with a value.
pub open spec fn spec_is_rvalue(kind: AST_Type) -> bool {
    kind is Expr || kind == AST_Type::Identifier || kind == AST_Type::Unparsed(TokenType::STRING)
}

/// Whether a classification is that of a clause of a conditional.
pub open spec fn spec_is_clause(kind: AST_Type) -> bool {
    kind == AST_Type::Stmt(StmtType::Else) || kind == AST_Type::Stmt(StmtType::Elseif)
}

/// Whether a node has the children that its classification asks for.
pub open spec fn spec_shape_ok(n: NodeView) -> bool {
    let kids = n.children;
    let braced = AST_Type::Stmt(StmtType::Braced);
    match n.ast_type {
        AST_Type::Unparsed(_) | AST_Type::Identifier | AST_Type::Unknown | AST_Type::Unfinished
        | AST_Type::PotentialStmt => kids.len() == 0,
        AST_Type::Tuple => kids.len() >= 2 && forall|i: int|
            0 <= i < kids.len() ==> spec_is_rvalue(#[trigger] kids[i].ast_type),
        AST_Type::Expr(kind) => match kind {
            ExprType::Normal => kids.len() == 0 || (kids.len() == 2 && spec_is_rvalue(
                kids[0].ast_type,
            ) && spec_is_rvalue(kids[1].ast_type)),
            ExprType::Paren => kids.len() <= 1,
            ExprType::Negated => kids.len() == 1 && (kids[0].ast_type == AST_Type::Expr(
                ExprType::Normal,
            ) || kids[0].ast_type == AST_Type::Expr(ExprType::Paren) || kids[0].ast_type
                == AST_Type::Identifier),
            ExprType::Function => kids.len() == 1 && kids[0].ast_type == AST_Type::Expr(
                ExprType::Paren,
            ),
        },
        AST_Type::Stmt(kind) => match kind {
            StmtType::Normal => kids.len() == 1 && !(kids[0].ast_type is Stmt),
            StmtType::Braced => kids.len() <= 1,
            StmtType::Assignment | StmtType::PlusEqual | StmtType::MinusEqual
            | StmtType::StarEqual | StmtType::SlashEqual | StmtType::PercentEqual => kids.len()
                == 2 && kids[0].ast_type == AST_Type::Identifier && spec_is_rvalue(
                kids[1].ast_type,
            ),
            StmtType::Declaration => kids.len() == 1 && kids[0].ast_type == AST_Type::Stmt(
                StmtType::Assignment,
            ),
            StmtType::Compound => kids.len() >= 1 && forall|i: int|
                0 <= i < kids.len() ==> (#[trigger] kids[i].ast_type) is Stmt && kids[i].ast_type
                    != AST_Type::Stmt(StmtType::Compound),
            StmtType::If => kids.len() >= 2 && spec_is_rvalue(kids[0].ast_type)
                && kids[1].ast_type == braced && forall|i: int|
                2 <= i < kids.len() ==> spec_is_clause(#[trigger] kids[i].ast_type),
            StmtType::Elseif => kids.len() == 2 && spec_is_rvalue(kids[0].ast_type)
                && kids[1].ast_type == braced,
            StmtType::Else => kids.len() == 1 && kids[0].ast_type == braced,
            StmtType::While => kids.len() == 2 && (kids[0].ast_type == AST_Type::Expr(
                ExprType::Paren,
            ) || kids[0].ast_type == AST_Type::Expr(ExprType::Normal)) && kids[1].ast_type
                == braced,
            StmtType::FunctionDef => kids.len() == 3 && kids[0].ast_type == AST_Type::Identifier
                && kids[1].ast_type == AST_Type::Expr(ExprType::Paren) && kids[2].ast_type
                == braced,
        },
    }
}

/// Whether every node of a tree has the children that its classification
/// asks for.
pub open spec fn spec_well_formed(n: NodeView) -> bool
    decreases n,
{
    &&& spec_shape_ok(n)
    &&& forall|i: int| 0 <= i < n.children.len() ==> spec_well_formed(#[trigger] n.children[i])
}

/// Whether every tree of a run is well formed.
pub open spec fn spec_all_well_formed(run: Seq<NodeView>) -> bool {
    forall|i: int| 0 <= i < run.len() ==> spec_well_formed(#[trigger] run[i])
}

/// The values are the expressions, the names and the string literals.
pub proof fn lemma_rvalues(kind: AST_Type)
    ensures
        spec_rvalues().contains(kind) <==> spec_is_rvalue(kind),
{
    let values = spec_rvalues();
    assert(values.len() == 6);
    assert(values[0] == AST_Type::Expr(ExprType::Normal));
    assert(values[1] == AST_Type::Expr(ExprType::Paren));
    assert(values[2] == AST_Type::Expr(ExprType::Negated));
    assert(values[3] == AST_Type::Expr(ExprType::Function));
    assert(values[4] == AST_Type::Identifier);
    assert(values[5] == AST_Type::Unparsed(TokenType::STRING));
}

/// A node that adopts, as a leaf, well-formed children that fit its new
/// classification is well formed.
pub proof fn lemma_adopt_well_formed(parent: NodeView, kind: AST_Type, kids: Seq<NodeView>)
    requires
        spec_all_well_formed(parent.children),
        spec_all_well_formed(kids),
        spec_shape_ok(spec_adopt(parent, kind, kids)),
    ensures
        spec_well_formed(spec_adopt(parent, kind, kids)),
{
    let node = spec_adopt(parent, kind, kids);
    assert forall|i: int| 0 <= i < node.children.len() implies spec_well_formed(
        #[trigger] node.children[i],
    ) by {
        if i < parent.children.len() {
            assert(node.children[i] == parent.children[i]);
        } else {
            assert(node.children[i] == kids[i - parent.children.len()]);
        }
    }
}

/// A run in which a well-formed node stands in place of some nodes of a
/// well-formed run is well formed.
pub proof fn lemma_splice_well_formed(tree: Seq<NodeView>, from: int, to: int, node: NodeView)
    requires
        spec_all_well_formed(tree),
        0 <= from <= to <= tree.len(),
        spec_well_formed(node),
    ensures
        spec_all_well_formed(spec_splice(tree, from, to, node)),
{
    let after = spec_splice(tree, from, to, node);
    assert forall|i: int| 0 <= i < after.len() implies spec_well_formed(#[trigger] after[i]) by {
        if i < from {
            assert(after[i] == tree[i]);
        } else if i == from {
            assert(after[i] == node);
        } else {
            assert(after[i] == tree[i - from - 1 + to]);
        }
    }
}

/// The children of a well-formed node are well formed.
pub proof fn lemma_children_well_formed(n: NodeView)
    requires
        spec_well_formed(n),
    ensures
        spec_all_well_formed(n.children),
{
}

/// An unparsed node or a name of a well-formed run is a leaf.
pub proof fn lemma_leaf(tree: Seq<NodeView>, i: int)
    requires
        spec_all_well_formed(tree),
        0 <= i < tree.len(),
        tree[i].ast_type is Unparsed || tree[i].ast_type == AST_Type::Identifier,
    ensures
        tree[i].children.len() == 0,
        spec_all_well_formed(tree[i].children),
{
    assert(spec_well_formed(tree[i]));
}

/// Folding binary operators keeps a run well formed.
pub proof fn lemma_left_assoc_well_formed(
    tree: Seq<NodeView>,
    i: int,
    left: Seq<AST_Type>,
    ops: Seq<TokenType>,
    right: Seq<AST_Type>,
    source: Seq<char>,
)
    requires
        spec_all_well_formed(tree),
        forall|t: AST_Type| left.contains(t) ==> spec_is_rvalue(t),
        forall|t: AST_Type| right.contains(t) ==> spec_is_rvalue(t),
    ensures
        spec_all_well_formed(
            spec_tree_of(
                spec_left_assoc_from(
                    tree,
                    i,
                    left,
                    ops,
                    right,
                    AST_Type::Expr(ExprType::Normal),
                    source,
                ),
            ),
        ),
    decreases tree.len() - i,
{
    let kind = AST_Type::Expr(ExprType::Normal);
    if i < 0 || i + 2 >= tree.len() {
    } else if !spec_is_operator(tree[i + 1], ops) || !left.contains(tree[i].ast_type) {
        lemma_left_assoc_well_formed(tree, i + 1, left, ops, right, source);
    } else if !right.contains(tree[i + 2].ast_type) {
    } else {
        let kids = seq![tree[i], tree[i + 2]];
        let node = spec_adopt(tree[i + 1], kind, kids);
        lemma_leaf(tree, i + 1);
        assert(node.children =~= kids);
        assert(spec_well_formed(tree[i]) && spec_well_formed(tree[i + 2]));
        lemma_adopt_well_formed(tree[i + 1], kind, kids);
        lemma_splice_well_formed(tree, i, i + 3, node);
        lemma_left_assoc_well_formed(
            spec_splice(tree, i, i + 3, node),
            i,
            left,
            ops,
            right,
            source,
        );
    }
}

/// Whether a prefix that takes the classification `result` may adopt a
/// node of the classification `operand`.
pub open spec fn spec_prefix_fits(result: AST_Type, operand: AST_Type) -> bool {
    ||| (result == AST_Type::Expr(ExprType::Negated) && (operand == AST_Type::Expr(
        ExprType::Normal,
    ) || operand == AST_Type::Expr(ExprType::Paren) || operand == AST_Type::Identifier))
    ||| (result == AST_Type::Stmt(StmtType::Declaration) && operand == AST_Type::Stmt(
        StmtType::Assignment,
    ))
}

/// Folding prefixes keeps a run well formed.
pub proof fn lemma_prefix_well_formed(
    tree: Seq<NodeView>,
    i: int,
    prefix_types: Seq<AST_Type>,
    sequential_types: Seq<AST_Type>,
    valid_after: Seq<AST_Type>,
    result_type: AST_Type,
    source: Seq<char>,
)
    requires
        spec_all_well_formed(tree),
        forall|t: AST_Type| prefix_types.contains(t) ==> t is Unparsed,
        forall|t: AST_Type| sequential_types.contains(t) ==> spec_prefix_fits(result_type, t),
    ensures
        spec_all_well_formed(
            spec_tree_of(
                spec_parse_prefix_from(
                    tree,
                    i,
                    prefix_types,
                    sequential_types,
                    valid_after,
                    result_type,
                    source,
                ),
            ),
        ),
    decreases tree.len() - i,
{
    if i < 0 || i >= tree.len() {
    } else if (i > 0 && !valid_after.contains(tree[i - 1].ast_type)) || !prefix_types.contains(
        tree[i].ast_type,
    ) {
        lemma_prefix_well_formed(
            tree,
            i + 1,
            prefix_types,
            sequential_types,
            valid_after,
            result_type,
            source,
        );
    } else if i + 1 >= tree.len() || !sequential_types.contains(tree[i + 1].ast_type) {
    } else {
        let kids = seq![tree[i + 1]];
        let node = spec_adopt(tree[i], result_type, kids);
        lemma_leaf(tree, i);
        assert(node.children =~= kids);
        assert(spec_well_formed(tree[i + 1]));
        lemma_adopt_well_formed(tree[i], result_type, kids);
        lemma_splice_well_formed(tree, i, i + 2, node);
        lemma_prefix_well_formed(
            spec_splice(tree, i, i + 2, node),
            i + 1,
            prefix_types,
            sequential_types,
            valid_after,
            result_type,
            source,
        );
    }
}

/// Whether a classification is that of an assignment or of a compound
/// assignment.
pub open spec fn spec_is_assignment_kind(kind: AST_Type) -> bool {
    kind == AST_Type::Stmt(StmtType::Assignment) || kind == AST_Type::Stmt(StmtType::PlusEqual)
        || kind == AST_Type::Stmt(StmtType::MinusEqual) || kind == AST_Type::Stmt(
        StmtType::StarEqual,
    ) || kind == AST_Type::Stmt(StmtType::SlashEqual) || kind == AST_Type::Stmt(
        StmtType::PercentEqual,
    )
}

/// Folding assignments keeps a run well formed.
pub proof fn lemma_assignment_like_well_formed(
    tree: Seq<NodeView>,
    i: int,
    key_types: Seq<AST_Type>,
    result_type: AST_Type,
    source: Seq<char>,
)
    requires
        spec_all_well_formed(tree),
        forall|t: AST_Type| key_types.contains(t) ==> t is Unparsed,
        spec_is_assignment_kind(result_type),
    ensures
        spec_all_well_formed(
            spec_tree_of(spec_parse_assignment_like_from(tree, i, key_types, result_type, source)),
        ),
    decreases tree.len() - i,
{
    if i < 0 || i >= tree.len() {
    } else if i + 1 >= tree.len() || !key_types.contains(tree[i + 1].ast_type) {
        lemma_assignment_like_well_formed(tree, i + 1, key_types, result_type, source);
    } else if tree[i].ast_type != AST_Type::Identifier {
    } else if i + 2 >= tree.len() || !spec_rvalues().contains(tree[i + 2].ast_type) {
    } else if i + 3 >= tree.len() || !spec_is_stmt_sep(tree[i + 3]) {
    } else {
        let kids = seq![tree[i], tree[i + 2]];
        let node = spec_adopt(tree[i + 1], result_type, kids);
        lemma_leaf(tree, i + 1);
        lemma_rvalues(tree[i + 2].ast_type);
        assert(node.children =~= kids);
        assert(spec_well_formed(tree[i]) && spec_well_formed(tree[i + 2]));
        lemma_adopt_well_formed(tree[i + 1], result_type, kids);
        lemma_splice_well_formed(tree, i, i + 4, node);
        lemma_assignment_like_well_formed(
            spec_splice(tree, i, i + 4, node),
            i + 1,
            key_types,
            result_type,
            source,
        );
    }
}

/// Folding loops keeps a run well formed.
pub proof fn lemma_stmt_like_while_well_formed(
    tree: Seq<NodeView>,
    i: int,
    keyword_types: Seq<AST_Type>,
    left: Seq<AST_Type>,
    right: Seq<AST_Type>,
    source: Seq<char>,
    error_1: Seq<char>,
    error_2: Seq<char>,
)
    requires
        spec_all_well_formed(tree),
        forall|t: AST_Type| keyword_types.contains(t) ==> t is Unparsed,
        forall|t: AST_Type|
            left.contains(t) ==> t == AST_Type::Expr(ExprType::Paren) || t == AST_Type::Expr(
                ExprType::Normal,
            ),
        forall|t: AST_Type| right.contains(t) ==> t == AST_Type::Stmt(StmtType::Braced),
    ensures
        spec_all_well_formed(
            spec_tree_of(
                spec_parse_ternary_stmt_like_while_from(
                    tree,
                    i,
                    keyword_types,
                    left,
                    right,
                    AST_Type::Stmt(StmtType::While),
                    source,
                    error_1,
                    error_2,
                ),
            ),
        ),
    decreases tree.len() - i,
{
    let kind = AST_Type::Stmt(StmtType::While);
    if i < 0 || i + 2 >= tree.len() {
    } else if !keyword_types.contains(tree[i].ast_type) {
        lemma_stmt_like_while_well_formed(
            tree,
            i + 1,
            keyword_types,
            left,
            right,
            source,
            error_1,
            error_2,
        );
    } else if !left.contains(tree[i + 1].ast_type) {
    } else if !right.contains(tree[i + 2].ast_type) {
    } else {
        let kids = seq![tree[i + 1], tree[i + 2]];
        let node = spec_adopt(tree[i], kind, kids);
        lemma_leaf(tree, i);
        assert(node.children =~= kids);
        assert(spec_well_formed(tree[i + 1]) && spec_well_formed(tree[i + 2]));
        lemma_adopt_well_formed(tree[i], kind, kids);
        lemma_splice_well_formed(tree, i, i + 3, node);
        lemma_stmt_like_while_well_formed(
            spec_splice(tree, i, i + 3, node),
            i,
            keyword_types,
            left,
            right,
            source,
            error_1,
            error_2,
        );
    }
}

/// Folding function definitions keeps a run well formed.
pub proof fn lemma_function_definition_well_formed(tree: Seq<NodeView>, i: int, source: Seq<char>)
    requires
        spec_all_well_formed(tree),
    ensures
        spec_all_well_formed(spec_tree_of(spec_parse_function_definition_from(tree, i, source))),
    decreases tree.len() - i,
{
    let kind = AST_Type::Stmt(StmtType::FunctionDef);
    if i < 0 || i >= tree.len() {
    } else if tree[i].ast_type != AST_Type::Unparsed(TokenType::FN) {
        lemma_function_definition_well_formed(tree, i + 1, source);
    } else if i + 1 >= tree.len() || tree[i + 1].ast_type != AST_Type::Identifier {
    } else if i + 2 >= tree.len() || tree[i + 2].ast_type != AST_Type::Expr(ExprType::Paren) {
    } else if i + 3 >= tree.len() || tree[i + 3].ast_type != AST_Type::Stmt(StmtType::Braced) {
    } else {
        let kids = tree.subrange(i + 1, i + 4);
        let node = spec_adopt(tree[i], kind, kids);
        lemma_leaf(tree, i);
        assert(node.children =~= kids);
        assert forall|j: int| 0 <= j < kids.len() implies spec_well_formed(#[trigger] kids[j]) by {
            assert(kids[j] == tree[i + 1 + j]);
        }
        lemma_adopt_well_formed(tree[i], kind, kids);
        lemma_splice_well_formed(tree, i, i + 4, node);
        lemma_function_definition_well_formed(spec_splice(tree, i, i + 4, node), i + 1, source);
    }
}

/// Folding calls keeps a run well formed.
pub proof fn lemma_function_call_well_formed(tree: Seq<NodeView>, i: int)
    requires
        spec_all_well_formed(tree),
    ensures
        spec_all_well_formed(spec_parse_function_call_from(tree, i)),
    decreases tree.len() - i,
{
    let kind = AST_Type::Expr(ExprType::Function);
    if i < 0 || i + 1 >= tree.len() {
    } else if spec_is_callee(tree[i]) && tree[i + 1].ast_type == AST_Type::Expr(ExprType::Paren) {
        let kids = seq![tree[i + 1]];
        let node = spec_adopt(tree[i], kind, kids);
        lemma_leaf(tree, i);
        assert(node.children =~= kids);
        assert(spec_well_formed(tree[i + 1]));
        lemma_adopt_well_formed(tree[i], kind, kids);
        lemma_splice_well_formed(tree, i, i + 2, node);
        lemma_function_call_well_formed(spec_splice(tree, i, i + 2, node), i + 1);
    } else {
        lemma_function_call_well_formed(tree, i + 1);
    }
}

/// Absorbing statement separators keeps a run well formed.
pub proof fn lemma_stmt_sep_well_formed(tree: Seq<NodeView>, i: int)
    requires
        spec_all_well_formed(tree),
    ensures
        spec_all_well_formed(spec_parse_stmt_sep_from(tree, i)),
    decreases tree.len() - i,
{
    let kind = AST_Type::Stmt(StmtType::Normal);
    if i < 0 || i >= tree.len() {
    } else if !spec_is_stmt_sep(tree[i]) {
        lemma_stmt_sep_well_formed(tree, i + 1);
    } else if i == 0 || tree[i - 1].ast_type is Stmt {
        let after = tree.remove(i);
        assert forall|j: int| 0 <= j < after.len() implies spec_well_formed(
            #[trigger] after[j],
        ) by {
            if j < i {
                assert(after[j] == tree[j]);
            } else {
                assert(after[j] == tree[j + 1]);
            }
        }
        lemma_stmt_sep_well_formed(after, i);
    } else {
        let kids = seq![tree[i - 1]];
        let node = spec_adopt(tree[i], kind, kids);
        lemma_leaf(tree, i);
        assert(node.children =~= kids);
        assert(spec_well_formed(tree[i - 1]));
        lemma_adopt_well_formed(tree[i], kind, kids);
        lemma_splice_well_formed(tree, i - 1, i + 1, node);
        lemma_stmt_sep_well_formed(spec_splice(tree, i - 1, i + 1, node), i);
    }
}

/// A run of commas that is in order has a value at every second place,
/// from the place before the first comma on.
pub proof fn lemma_comma_run_values(
    tree: Seq<NodeView>,
    i: int,
    count: int,
    expected: Seq<AST_Type>,
    source: Seq<char>,
)
    requires
        0 <= i < tree.len(),
        spec_is_comma(tree[i]),
        0 <= count,
        count > 0 ==> i >= 1 && i + 2 * count <= tree.len(),
        count > 0 ==> forall|j: int|
            0 <= j <= count ==> expected.contains(#[trigger] tree[i - 1 + 2 * j].ast_type),
    ensures
        spec_comma_run(tree, i, count, expected, source) matches Ok(n) ==> {
            &&& 1 <= i
            &&& 1 <= n
            &&& i + 2 * n <= tree.len()
            &&& forall|j: int|
                0 <= j <= n ==> expected.contains(#[trigger] tree[i - 1 + 2 * j].ast_type)
        },
    decreases tree.len() - i - 2 * count,
{
    let p = i + 2 * count;
    if p >= tree.len() || !spec_is_comma(tree[p]) {
    } else if p == 0 || !expected.contains(tree[p - 1].ast_type) {
    } else if p == tree.len() - 1 || !expected.contains(tree[p + 1].ast_type) {
    } else {
        assert forall|j: int| 0 <= j <= count + 1 implies expected.contains(
            #[trigger] tree[i - 1 + 2 * j].ast_type,
        ) by {
            if j == count + 1 {
                assert(tree[i - 1 + 2 * j] == tree[p + 1]);
            } else if count == 0 {
                assert(tree[i - 1 + 2 * j] == tree[p - 1]);
            }
        }
        lemma_comma_run_values(tree, i, count + 1, expected, source);
    }
}

/// Folding tuples keeps a run well formed.
#[verifier::rlimit(40)]
pub proof fn lemma_comma_well_formed(
    tree: Seq<NodeView>,
    i: int,
    expected: Seq<AST_Type>,
    source: Seq<char>,
)
    requires
        spec_all_well_formed(tree),
        forall|t: AST_Type| expected.contains(t) ==> spec_is_rvalue(t),
    ensures
        spec_all_well_formed(
            spec_tree_of(spec_parse_comma_from(tree, i, expected, AST_Type::Tuple, source)),
        ),
    decreases tree.len() - i,
{
    if i < 0 || i >= tree.len() {
    } else if !spec_is_comma(tree[i]) {
        lemma_comma_well_formed(tree, i + 1, expected, source);
    } else {
        let run = spec_comma_run(tree, i, 0, expected, source);
        if run is Ok {
            lemma_comma_run_values(tree, i, 0, expected, source);
            let count = run->Ok_0;
            let kids = spec_comma_operands(tree, i, count);
            let node = spec_adopt(tree[i], AST_Type::Tuple, kids);
            let folded = spec_splice(tree, i - 1, i + 2 * count, node);
            lemma_leaf(tree, i);
            assert(node.children =~= kids);
            assert forall|j: int| 0 <= j < kids.len() implies spec_well_formed(
                #[trigger] kids[j],
            ) && spec_is_rvalue(kids[j].ast_type) by {
                assert(kids[j] == tree[i - 1 + 2 * j]);
                assert(expected.contains(tree[i - 1 + 2 * j].ast_type));
            }
            lemma_adopt_well_formed(tree[i], AST_Type::Tuple, kids);
            lemma_splice_well_formed(tree, i - 1, i + 2 * count, node);
            if i < folded.len() < tree.len() {
                lemma_comma_well_formed(folded, i + 1, expected, source);
            }
        }
    }
}

/// Folding conditionals keeps a run well formed.
#[verifier::rlimit(40)]
pub proof fn lemma_if_well_formed(tree: Seq<NodeView>, i: int, absorbing: bool, source: Seq<char>)
    requires
        spec_all_well_formed(tree),
        absorbing && 0 <= i < tree.len() ==> tree[i].ast_type == AST_Type::Stmt(StmtType::If),
    ensures
        spec_all_well_formed(spec_tree_of(spec_parse_if_from(tree, i, absorbing, source))),
    decreases tree.len() - i,
{
    let braced = AST_Type::Stmt(StmtType::Braced);
    let keyword = AST_Type::Unparsed(TokenType::IF);
    let conditional = AST_Type::Stmt(StmtType::If);
    if i < 0 || i >= tree.len() {
    } else if !absorbing {
        if tree[i].ast_type != keyword {
            lemma_if_well_formed(tree, i + 1, false, source);
        } else if i + 1 >= tree.len() || !spec_rvalues().contains(tree[i + 1].ast_type) {
        } else if i + 2 >= tree.len() || tree[i + 2].ast_type != braced {
        } else {
            let kids = seq![tree[i + 1], tree[i + 2]];
            let node = spec_adopt(tree[i], conditional, kids);
            lemma_leaf(tree, i);
            lemma_rvalues(tree[i + 1].ast_type);
            assert(node.children =~= kids);
            assert(spec_well_formed(tree[i + 1]) && spec_well_formed(tree[i + 2]));
            lemma_adopt_well_formed(tree[i], conditional, kids);
            lemma_splice_well_formed(tree, i, i + 3, node);
            lemma_if_well_formed(spec_splice(tree, i, i + 3, node), i, true, source);
        }
    } else if i + 1 >= tree.len() || tree[i + 1].ast_type != AST_Type::Unparsed(TokenType::ELSE) {
        lemma_if_well_formed(tree, i + 1, false, source);
    } else if i + 2 >= tree.len() || (tree[i + 2].ast_type != braced && tree[i + 2].ast_type
        != keyword) {
    } else if tree[i + 2].ast_type == braced {
        let inner = seq![tree[i + 2]];
        let clause = spec_adopt(tree[i + 1], AST_Type::Stmt(StmtType::Else), inner);
        lemma_leaf(tree, i + 1);
        assert(clause.children =~= inner);
        assert(spec_well_formed(tree[i + 2]));
        lemma_adopt_well_formed(tree[i + 1], AST_Type::Stmt(StmtType::Else), inner);
        let node = spec_adopt(tree[i], tree[i].ast_type, seq![clause]);
        lemma_clause_well_formed(tree[i], clause);
        lemma_splice_well_formed(tree, i, i + 3, node);
        lemma_if_well_formed(spec_splice(tree, i, i + 3, node), i + 1, false, source);
    } else if i + 3 >= tree.len() || !spec_rvalues().contains(tree[i + 3].ast_type) {
    } else if i + 4 >= tree.len() || tree[i + 4].ast_type != braced {
    } else {
        let inner = seq![tree[i + 3], tree[i + 4]];
        let clause = spec_adopt(tree[i + 2], AST_Type::Stmt(StmtType::Elseif), inner);
        lemma_leaf(tree, i + 2);
        lemma_rvalues(tree[i + 3].ast_type);
        assert(clause.children =~= inner);
        assert(spec_well_formed(tree[i + 3]) && spec_well_formed(tree[i + 4]));
        lemma_adopt_well_formed(tree[i + 2], AST_Type::Stmt(StmtType::Elseif), inner);
        let node = spec_adopt(tree[i], tree[i].ast_type, seq![clause]);
        lemma_clause_well_formed(tree[i], clause);
        lemma_splice_well_formed(tree, i, i + 5, node);
        lemma_if_well_formed(spec_splice(tree, i, i + 5, node), i, true, source);
    }
}

/// A well-formed conditional that takes in a well-formed clause is well
/// formed.
pub proof fn lemma_clause_well_formed(conditional: NodeView, clause: NodeView)
    requires
        spec_well_formed(conditional),
        conditional.ast_type == AST_Type::Stmt(StmtType::If),
        spec_well_formed(clause),
        spec_is_clause(clause.ast_type),
    ensures
        spec_well_formed(spec_adopt(conditional, conditional.ast_type, seq![clause])),
{
    let node = spec_adopt(conditional, conditional.ast_type, seq![clause]);
    let n = conditional.children.len() as int;
    assert(node.children.len() == n + 1);
    assert forall|k: int| 0 <= k < node.children.len() implies spec_well_formed(
        #[trigger] node.children[k],
    ) by {
        if k < n {
            assert(node.children[k] == conditional.children[k]);
        } else {
            assert(node.children[k] == clause);
        }
    }
    assert(node.children[0] == conditional.children[0]);
    assert(node.children[1] == conditional.children[1]);
    assert forall|k: int| 2 <= k < node.children.len() implies spec_is_clause(
        #[trigger] node.children[k].ast_type,
    ) by {
        if k < n {
            assert(node.children[k] == conditional.children[k]);
        } else {
            assert(node.children[k] == clause);
        }
    }
}

/// What a well-formed statement brings into a compound statement are
/// well-formed statements that are not compound.
pub proof fn lemma_statements_of(node: NodeView)
    requires
        spec_well_formed(node),
        node.ast_type is Stmt,
    ensures
        spec_statements_of(node).len() >= 1,
        forall|k: int|
            0 <= k < spec_statements_of(node).len() ==> {
                &&& spec_well_formed(#[trigger] spec_statements_of(node)[k])
                &&& spec_statements_of(node)[k].ast_type is Stmt
                &&& spec_statements_of(node)[k].ast_type != AST_Type::Stmt(StmtType::Compound)
            },
{
}

/// A compound statement that takes in the statements of a well-formed
/// statement is well formed.
pub proof fn lemma_compound_grows(compound: NodeView, statement: NodeView)
    requires
        compound.ast_type == AST_Type::Stmt(StmtType::Compound),
        compound.children.len() == 0 || spec_well_formed(compound),
        spec_well_formed(statement),
        statement.ast_type is Stmt,
    ensures
        spec_well_formed(spec_adopt(compound, compound.ast_type, spec_statements_of(statement))),
{
    let added = spec_statements_of(statement);
    let node = spec_adopt(compound, compound.ast_type, added);
    let n = compound.children.len() as int;
    lemma_statements_of(statement);
    assert forall|k: int| 0 <= k < node.children.len() implies spec_well_formed(
        #[trigger] node.children[k],
    ) && node.children[k].ast_type is Stmt && node.children[k].ast_type != AST_Type::Stmt(
        StmtType::Compound,
    ) by {
        if k < n {
            assert(node.children[k] == compound.children[k]);
        } else {
            assert(node.children[k] == added[k - n]);
        }
    }
}

/// Gathering statements keeps a run well formed.
#[verifier::rlimit(40)]
pub proof fn lemma_compound_well_formed(tree: Seq<NodeView>, i: int, open: int)
    requires
        spec_all_well_formed(tree),
        0 <= open < i && open < tree.len() ==> tree[open].ast_type == AST_Type::Stmt(
            StmtType::Compound,
        ),
    ensures
        spec_all_well_formed(spec_parse_compound_from(tree, i, open)),
    decreases tree.len() - i,
{
    if i < 0 || i >= tree.len() {
    } else if !(tree[i].ast_type is Stmt) {
        lemma_compound_well_formed(tree, i + 1, -1);
    } else if 0 <= open < i {
        let node = spec_adopt(tree[open], tree[open].ast_type, spec_statements_of(tree[i]));
        let after = tree.remove(i).update(open, node);
        assert(spec_well_formed(tree[open]) && spec_well_formed(tree[i]));
        lemma_compound_grows(tree[open], tree[i]);
        assert forall|j: int| 0 <= j < after.len() implies spec_well_formed(
            #[trigger] after[j],
        ) by {
            if j == open {
            } else if j < i {
                assert(after[j] == tree[j]);
            } else {
                assert(after[j] == tree[j + 1]);
            }
        }
        lemma_compound_well_formed(after, i, open);
    } else {
        let fresh = spec_leaf(AST_Type::Stmt(StmtType::Compound), spec_dummy_token());
        let node = spec_adopt(
            fresh,
            AST_Type::Stmt(StmtType::Compound),
            spec_statements_of(tree[i]),
        );
        let after = tree.update(i, node);
        assert(spec_well_formed(tree[i]));
        lemma_compound_grows(fresh, tree[i]);
        assert forall|j: int| 0 <= j < after.len() implies spec_well_formed(
            #[trigger] after[j],
        ) by {
            if j != i {
                assert(after[j] == tree[j]);
            }
        }
        lemma_compound_well_formed(after, i + 1, i);
    }
}

/// The opening delimiter of the parentheses, or of the braces.
pub open spec fn spec_left_delimiter(braces: bool) -> AST_Type {
    AST_Type::Unparsed(
        if braces {
            TokenType::LEFT_BRACE
        } else {
            TokenType::LEFT_PAREN
        },
    )
}

/// The closing delimiter of the parentheses, or of the braces.
pub open spec fn spec_right_delimiter(braces: bool) -> AST_Type {
    AST_Type::Unparsed(
        if braces {
            TokenType::RIGHT_BRACE
        } else {
            TokenType::RIGHT_PAREN
        },
    )
}

/// Whether the first `k` of `pairs` are pairs of delimiters of the run,
/// one behind the other: each opens at a `left` and closes behind it at a
/// `right`, and each closes before the next one opens.
pub open spec fn spec_pairs_in_order(
    tree: Seq<NodeView>,
    left: AST_Type,
    right: AST_Type,
    pairs: Seq<(usize, usize)>,
    k: int,
) -> bool {
    &&& 0 <= k <= pairs.len()
    &&& forall|j: int|
        0 <= j < k ==> {
            &&& (#[trigger] pairs[j]).0 < pairs[j].1 < tree.len()
            &&& tree[pairs[j].0 as int].ast_type == left
            &&& tree[pairs[j].1 as int].ast_type == right
        }
    &&& forall|a: int, b: int| 0 <= a < b < k ==> (#[trigger] pairs[a]).1 < (#[trigger] pairs[b]).0
}

/// The pairs that the scan finds are pairs of delimiters, one behind the
/// other.
#[verifier::rlimit(40)]
pub proof fn lemma_scan_pairs(
    tree: Seq<NodeView>,
    left: AST_Type,
    right: AST_Type,
    i: int,
    start: int,
    count: int,
    found: Seq<(usize, usize)>,
)
    requires
        left != right,
        tree.len() <= usize::MAX,
        0 <= i <= tree.len(),
        0 <= count,
        count > 0 ==> 0 <= start < i && tree[start].ast_type == left,
        spec_pairs_in_order(tree, left, right, found, found.len() as int),
        forall|j: int|
            0 <= j < found.len() ==> (#[trigger] found[j]).1 < if count > 0 {
                start
            } else {
                i
            },
    ensures
        spec_delimiter_scan(tree, left, right, i, start, count, found)
            matches DelimiterScan::Balanced(pairs) ==> spec_pairs_in_order(
            tree,
            left,
            right,
            pairs,
            pairs.len() as int,
        ),
    decreases tree.len() - i,
{
    if i >= tree.len() {
    } else if tree[i].ast_type == left {
        lemma_scan_pairs(
            tree,
            left,
            right,
            i + 1,
            if count == 0 {
                i
            } else {
                start
            },
            count + 1,
            found,
        );
    } else if tree[i].ast_type == right {
        if count <= 0 {
        } else if count == 1 {
            let more = found.push((start as usize, i as usize));
            assert forall|a: int, b: int| 0 <= a < b < more.len() implies (#[trigger] more[a]).1 < (
            #[trigger] more[b]).0 by {
                if b < found.len() {
                    assert(more[a] == found[a] && more[b] == found[b]);
                } else {
                    assert(more[a] == found[a]);
                }
            }
            assert forall|j: int| 0 <= j < more.len() implies {
                &&& (#[trigger] more[j]).0 < more[j].1 < tree.len()
                &&& tree[more[j].0 as int].ast_type == left
                &&& tree[more[j].1 as int].ast_type == right
            } by {
                if j < found.len() {
                    assert(more[j] == found[j]);
                }
            }
            assert forall|j: int| 0 <= j < more.len() implies (#[trigger] more[j]).1 < i + 1 by {
                if j < found.len() {
                    assert(more[j] == found[j]);
                }
            }
            lemma_scan_pairs(tree, left, right, i + 1, start, 0, more);
        } else {
            lemma_scan_pairs(tree, left, right, i + 1, start, count - 1, found);
        }
    } else {
        lemma_scan_pairs(tree, left, right, i + 1, start, count, found);
    }
}

/// Folding delimiter pairs keeps a run well formed.
#[verifier::rlimit(40)]
pub proof fn lemma_fold_delimited_well_formed(
    tree: Seq<NodeView>,
    pairs: Seq<(usize, usize)>,
    k: int,
    braces: bool,
    source: Seq<char>,
)
    requires
        spec_all_well_formed(tree),
        tree.len() <= usize::MAX,
        spec_pairs_in_order(
            tree,
            spec_left_delimiter(braces),
            spec_right_delimiter(braces),
            pairs,
            k,
        ),
    ensures
        spec_all_well_formed(spec_tree_of(spec_fold_delimited(tree, pairs, k, braces, source))),
    decreases tree.len(), 0nat, k,
{
    let left = spec_left_delimiter(braces);
    let right = spec_right_delimiter(braces);
    if k <= 0 || k > pairs.len() {
    } else {
        let start = pairs[k - 1].0 as int;
        let end = pairs[k - 1].1 as int;
        let region = if braces {
            spec_brace_region(tree, start, end)
        } else {
            spec_paren_region(tree, start, end)
        };
        if !(start < end < tree.len()) || region.len() >= tree.len() {
        } else {
            let between = tree.subrange(start + 1, end);
            assert forall|j: int| 0 <= j < between.len() implies spec_well_formed(
                #[trigger] between[j],
            ) by {
                assert(between[j] == tree[start + 1 + j]);
            }
            if braces {
                lemma_leaf(tree, end);
                if end > start + 1 {
                    let closing = NodeView {
                        ast_type: AST_Type::Unparsed(TokenType::STMT_SEP),
                        ..tree[end]
                    };
                    assert(spec_well_formed(closing));
                    assert forall|j: int| 0 <= j < region.len() implies spec_well_formed(
                        #[trigger] region[j],
                    ) by {
                        if j < between.len() {
                            assert(region[j] == between[j]);
                        } else {
                            assert(region[j] == closing);
                        }
                    }
                }
            } else {
                assert(region =~= between);
            }
            lemma_real_parse_well_formed(region, source);
            lemma_real_parse_len(region, source);
            let sub = spec_real_parse(region, source);
            if sub is Failed {
            } else if sub is Unfinished {
            } else {
                let kids = spec_tree_of(sub);
                let node = spec_adopt(tree[start], spec_region_type(braces), kids);
                lemma_leaf(tree, start);
                assert(node.children =~= kids);
                lemma_adopt_well_formed(tree[start], spec_region_type(braces), kids);
                lemma_splice_well_formed(tree, start, end + 1, node);
                let after = spec_splice(tree, start, end + 1, node);
                assert forall|j: int| 0 <= j < k - 1 implies {
                    &&& (#[trigger] pairs[j]).0 < pairs[j].1 < after.len()
                    &&& after[pairs[j].0 as int].ast_type == left
                    &&& after[pairs[j].1 as int].ast_type == right
                } by {
                    assert(pairs[j].1 < pairs[k - 1].0);
                    assert(after[pairs[j].0 as int] == tree[pairs[j].0 as int]);
                    assert(after[pairs[j].1 as int] == tree[pairs[j].1 as int]);
                }
                lemma_fold_delimited_well_formed(after, pairs, k - 1, braces, source);
            }
        }
    }
}

/// Resolving delimiters keeps a run well formed.
pub proof fn lemma_parse_delimiters_well_formed(
    tree: Seq<NodeView>,
    braces: bool,
    source: Seq<char>,
)
    requires
        spec_all_well_formed(tree),
        tree.len() <= usize::MAX,
    ensures
        spec_all_well_formed(spec_tree_of(spec_parse_delimiters(tree, braces, source))),
    decreases tree.len(), 1nat, 0int,
{
    let left = spec_left_delimiter(braces);
    let right = spec_right_delimiter(braces);
    match spec_delimiter_location(tree, left, right) {
        DelimiterScan::Balanced(pairs) => {
            lemma_scan_pairs(tree, left, right, 0, 0, 0, Seq::empty());
            lemma_fold_delimited_well_formed(tree, pairs, pairs.len() as int, braces, source);
        },
        _ => {},
    }
}

/// The members of a list of one classification.
pub proof fn lemma_one_of(a: AST_Type, t: AST_Type)
    ensures
        seq![a].contains(t) ==> t == a,
{
    if seq![a].contains(t) {
        let k = choose|k: int| 0 <= k < seq![a].len() && seq![a][k] == t;
    }
}

/// The members of a list of two classifications.
pub proof fn lemma_two_of(a: AST_Type, b: AST_Type, t: AST_Type)
    ensures
        seq![a, b].contains(t) ==> t == a || t == b,
{
    if seq![a, b].contains(t) {
        let k = choose|k: int| 0 <= k < seq![a, b].len() && seq![a, b][k] == t;
    }
}

/// The members of a list of three classifications.
pub proof fn lemma_three_of(a: AST_Type, b: AST_Type, c: AST_Type, t: AST_Type)
    ensures
        seq![a, b, c].contains(t) ==> t == a || t == b || t == c,
{
    if seq![a, b, c].contains(t) {
        let k = choose|k: int| 0 <= k < seq![a, b, c].len() && seq![a, b, c][k] == t;
    }
}

/// No pass breaks the shape of the trees of a run.
#[verifier::rlimit(40)]
pub proof fn lemma_pass_well_formed(tree: Seq<NodeView>, stage: int, source: Seq<char>)
    requires
        spec_all_well_formed(tree),
    ensures
        spec_all_well_formed(spec_tree_of(spec_pass(tree, stage, source))),
{
    let expr = AST_Type::Expr(ExprType::Normal);
    let paren = AST_Type::Expr(ExprType::Paren);
    let values = spec_rvalues();
    assert forall|t: AST_Type| values.contains(t) implies spec_is_rvalue(t) by {
        lemma_rvalues(t);
    }
    if stage < 0 {
        lemma_compound_well_formed(tree, 0, -1);
    } else if stage == 0 {
        lemma_function_definition_well_formed(tree, 0, source);
    } else if stage == 1 {
        lemma_function_call_well_formed(tree, 0);
    } else if stage == 2 {
        let prefixes = seq![AST_Type::Unparsed(TokenType::MINUS)];
        let operands = seq![expr, paren, AST_Type::Identifier];
        let kind = AST_Type::Expr(ExprType::Negated);
        assert forall|t: AST_Type| prefixes.contains(t) implies t is Unparsed by {
            lemma_one_of(AST_Type::Unparsed(TokenType::MINUS), t);
        }
        assert forall|t: AST_Type| operands.contains(t) implies spec_prefix_fits(kind, t) by {
            lemma_three_of(expr, paren, AST_Type::Identifier, t);
        }
        lemma_prefix_well_formed(
            tree,
            0,
            prefixes,
            operands,
            spec_valid_before_minus(),
            kind,
            source,
        );
    } else if stage <= 6 {
        let ops = if stage == 3 {
            seq![TokenType::STAR, TokenType::SLASH, TokenType::PERCENT]
        } else if stage == 4 {
            seq![TokenType::PLUS, TokenType::MINUS]
        } else if stage == 5 {
            seq![
                TokenType::GREATER,
                TokenType::GREATER_EQUAL,
                TokenType::LESS,
                TokenType::LESS_EQUAL,
            ]
        } else {
            seq![TokenType::EQUAL_EQUAL, TokenType::BANG_EQUAL]
        };
        lemma_left_assoc_well_formed(tree, 0, values, ops, values, source);
    } else if stage <= 11 {
        let operator = if stage == 7 {
            TokenType::EQUAL
        } else if stage == 8 {
            TokenType::PLUS_EQUAL
        } else if stage == 9 {
            TokenType::MINUS_EQUAL
        } else if stage == 10 {
            TokenType::STAR_EQUAL
        } else {
            TokenType::SLASH_EQUAL
        };
        let kind = AST_Type::Stmt(
            if stage == 7 {
                StmtType::Assignment
            } else if stage == 8 {
                StmtType::PlusEqual
            } else if stage == 9 {
                StmtType::MinusEqual
            } else if stage == 10 {
                StmtType::StarEqual
            } else {
                StmtType::SlashEqual
            },
        );
        let keys = seq![AST_Type::Unparsed(operator)];
        assert forall|t: AST_Type| keys.contains(t) implies t is Unparsed by {
            lemma_one_of(AST_Type::Unparsed(operator), t);
        }
        lemma_assignment_like_well_formed(tree, 0, keys, kind, source);
    } else if stage == 12 {
        let prefixes = seq![AST_Type::Unparsed(TokenType::VAR)];
        let operands = seq![AST_Type::Stmt(StmtType::Assignment)];
        let kind = AST_Type::Stmt(StmtType::Declaration);
        assert forall|t: AST_Type| prefixes.contains(t) implies t is Unparsed by {
            lemma_one_of(AST_Type::Unparsed(TokenType::VAR), t);
        }
        assert forall|t: AST_Type| operands.contains(t) implies spec_prefix_fits(kind, t) by {
            lemma_one_of(AST_Type::Stmt(StmtType::Assignment), t);
        }
        lemma_prefix_well_formed(
            tree,
            0,
            prefixes,
            operands,
            spec_valid_before_var(),
            kind,
            source,
        );
    } else if stage == 13 {
        lemma_comma_well_formed(tree, 0, values, source);
    } else if stage == 14 {
        let keywords = seq![AST_Type::Unparsed(TokenType::WHILE)];
        let conditions = seq![paren, expr];
        let bodies = seq![AST_Type::Stmt(StmtType::Braced)];
        assert forall|t: AST_Type| keywords.contains(t) implies t is Unparsed by {
            lemma_one_of(AST_Type::Unparsed(TokenType::WHILE), t);
        }
        assert forall|t: AST_Type| conditions.contains(t) implies t == paren || t == expr by {
            lemma_two_of(paren, expr, t);
        }
        assert forall|t: AST_Type| bodies.contains(t) implies t == AST_Type::Stmt(
            StmtType::Braced,
        ) by {
            lemma_one_of(AST_Type::Stmt(StmtType::Braced), t);
        }
        lemma_stmt_like_while_well_formed(
            tree,
            0,
            keywords,
            conditions,
            bodies,
            source,
            "Expected expression after while"@,
            "Expected {stmt} after while"@,
        );
    } else if stage == 15 {
        lemma_if_well_formed(tree, 0, false, source);
    } else if stage == 16 {
        lemma_stmt_sep_well_formed(tree, 0);
    } else {
        lemma_compound_well_formed(tree, 0, -1);
    }
}

pub proof fn lemma_passes_from_well_formed(tree: Seq<NodeView>, stage: int, source: Seq<char>)
    requires
        spec_all_well_formed(tree),
    ensures
        spec_all_well_formed(spec_tree_of(spec_passes_from(tree, stage, source))),
    decreases PASS_COUNT - stage,
{
    if stage < 0 || stage >= PASS_COUNT {
    } else {
        lemma_pass_well_formed(tree, stage, source);
        match spec_pass(tree, stage, source) {
            ParseView::Finished(t) => {
                lemma_passes_from_well_formed(t, stage + 1, source);
            },
            _ => {},
        }
    }
}

/// The shape of syntax trees. A parse of a run of well-formed trees
/// leaves well-formed trees: every node has the children that its
/// classification asks for. The leaves that tokens start out as are well
/// formed, so every tree that the parser builds from tokens is.
pub proof fn lemma_real_parse_well_formed(tree: Seq<NodeView>, source: Seq<char>)
    requires
        spec_all_well_formed(tree),
        tree.len() <= usize::MAX,
    ensures
        spec_all_well_formed(spec_tree_of(spec_real_parse(tree, source))),
    decreases tree.len(), 2nat, 0int,
{
    if tree.len() > 1 {
        lemma_parse_delimiters_well_formed(tree, false, source);
        lemma_parse_delimiters_len(tree, false, source);
        let parens = spec_parse_delimiters(tree, false, source);
        if parens is Finished && spec_tree_of(parens).len() <= tree.len() {
            lemma_parse_delimiters_well_formed(spec_tree_of(parens), true, source);
            let braces = spec_parse_delimiters(spec_tree_of(parens), true, source);
            if braces is Finished {
                lemma_passes_from_well_formed(spec_tree_of(braces), 0, source);
            }
        }
    }
}

/// The leaves that tokens start out as are well formed.
pub proof fn lemma_leaves_well_formed(tokens: Seq<TokenView>)
    ensures
        spec_all_well_formed(spec_leaves_of(tokens)),
{
    let leaves = spec_leaves_of(tokens);
    assert forall|i: int| 0 <= i < leaves.len() implies spec_well_formed(#[trigger] leaves[i]) by {
        assert(leaves[i].children.len() == 0);
    }
}

/// Two well-formed runs, one behind the other, are a well-formed run.
pub proof fn lemma_concat_well_formed(a: Seq<NodeView>, b: Seq<NodeView>)
    requires
        spec_all_well_formed(a),
        spec_all_well_formed(b),
    ensures
        spec_all_well_formed(a + b),
{
    let both = a + b;
    assert forall|i: int| 0 <= i < both.len() implies spec_well_formed(#[trigger] both[i]) by {
        if i < a.len() {
            assert(both[i] == a[i]);
        } else {
            assert(both[i] == b[i - a.len()]);
        }
    }
}

} // verus!
