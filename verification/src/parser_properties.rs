//! What holds of every parse: delimiter balance, associativity and
//! precedence of the binary operators, that a run only ever shrinks, and
//! that more input is asked for only where a delimiter is left open.
use crate::ast_node::{spec_leaf, AST_Type, ExprType, NodeView, StmtType};
use crate::parse_tree_unfinished::spec_is_stmt_sep;
use crate::parser::{
    lemma_comma_run_bounds, lemma_fold_delimited_len, lemma_parse_delimiters_len, spec_adopt,
    spec_comma_operands, spec_comma_run, spec_delimiter_location, spec_delimiter_scan,
    spec_is_callee, spec_is_comma, spec_is_operator, spec_left_assoc_from,
    spec_parse_assignment_like_from, spec_parse_comma_from, spec_parse_compound_from,
    spec_parse_delimiters, spec_parse_function_call_from, spec_parse_function_definition_from,
    spec_parse_if_from, spec_parse_prefix_from, spec_parse_stmt_sep_from,
    spec_parse_ternary_left_assoc, spec_parse_ternary_stmt_like_while_from, spec_pass,
    spec_passes_from, spec_real_parse, spec_rvalues, spec_splice, spec_statements_of,
    spec_tree_of, spec_valid_before_minus, spec_valid_before_var, DelimiterScan, ParseView,
    PASS_COUNT,
};
use crate::token::{spec_dummy_token, TokenType};
use crate::well_formed::lemma_rvalues;
use vstd::prelude::*;

verus! {

// ---------------------------------------------------------------------
// Delimiter balance
// ---------------------------------------------------------------------
/// How many of the first `upto` nodes have the classification `kind`.
pub open spec fn spec_count_kind(tree: Seq<NodeView>, kind: AST_Type, upto: int) -> int
    decreases upto,
{
    if upto <= 0 {
        0
    } else {
        spec_count_kind(tree, kind, upto - 1) + if upto <= tree.len() && tree[upto - 1].ast_type
            == kind {
            1int
        } else {
            0int
        }
    }
}

/// Whether the first `upto` nodes hold more closing than opening
/// delimiters.
pub open spec fn spec_closes_too_often(
    tree: Seq<NodeView>,
    left: AST_Type,
    right: AST_Type,
    upto: int,
) -> bool {
    spec_count_kind(tree, right, upto) > spec_count_kind(tree, left, upto)
}

/// Whether a run has an excess closing delimiter: some closing delimiter
/// has no opening partner before it.
pub open spec fn spec_has_excess_close(
    tree: Seq<NodeView>,
    left: AST_Type,
    right: AST_Type,
) -> bool {
    exists|p: int| 0 <= p <= tree.len() && #[trigger] spec_closes_too_often(tree, left, right, p)
}

/// Whether a run has an excess opening delimiter alone: every closing
/// delimiter has its partner, and an opening delimiter is left open.
pub open spec fn spec_has_excess_open(
    tree: Seq<NodeView>,
    left: AST_Type,
    right: AST_Type,
) -> bool {
    &&& !spec_has_excess_close(tree, left, right)
    &&& spec_count_kind(tree, left, tree.len() as int) > spec_count_kind(
        tree,
        right,
        tree.len() as int,
    )
}

/// What the scan finds from a position on, in terms of counts.
#[verifier::rlimit(40)]
pub proof fn lemma_delimiter_scan(
    tree: Seq<NodeView>,
    left: AST_Type,
    right: AST_Type,
    i: int,
    start: int,
    count: int,
    found: Seq<(usize, usize)>,
)
    requires
        left != right,
        0 <= i <= tree.len(),
        count == spec_count_kind(tree, left, i) - spec_count_kind(tree, right, i),
        forall|p: int| 0 <= p <= i ==> !#[trigger] spec_closes_too_often(tree, left, right, p),
    ensures
        match spec_delimiter_scan(tree, left, right, i, start, count, found) {
            DelimiterScan::ExtraRight(at) => i <= at < tree.len() && tree[at].ast_type == right
                && spec_closes_too_often(tree, left, right, at + 1),
            DelimiterScan::Unpaired => (forall|p: int|
                0 <= p <= tree.len() ==> !#[trigger] spec_closes_too_often(tree, left, right, p))
                && spec_count_kind(tree, left, tree.len() as int) > spec_count_kind(
                tree,
                right,
                tree.len() as int,
            ),
            DelimiterScan::Balanced(_) => (forall|p: int|
                0 <= p <= tree.len() ==> !#[trigger] spec_closes_too_often(tree, left, right, p))
                && spec_count_kind(tree, left, tree.len() as int) == spec_count_kind(
                tree,
                right,
                tree.len() as int,
            ),
        },
    decreases tree.len() - i,
{
    assert(!spec_closes_too_often(tree, left, right, i));
    if i >= tree.len() {
    } else if tree[i].ast_type == left {
        assert(!spec_closes_too_often(tree, left, right, i + 1));
        lemma_delimiter_scan(
            tree,
            left,
            right,
            i + 1,
            if count == 0 {
                i
            } else {
                start
            },
            count + 1,
            found,
        );
    } else if tree[i].ast_type == right {
        if count <= 0 {
            assert(spec_closes_too_often(tree, left, right, i + 1));
        } else if count == 1 {
            assert(!spec_closes_too_often(tree, left, right, i + 1));
            lemma_delimiter_scan(
                tree,
                left,
                right,
                i + 1,
                start,
                0,
                found.push((start as usize, i as usize)),
            );
        } else {
            assert(!spec_closes_too_often(tree, left, right, i + 1));
            lemma_delimiter_scan(tree, left, right, i + 1, start, count - 1, found);
        }
    } else {
        assert(!spec_closes_too_often(tree, left, right, i + 1));
        lemma_delimiter_scan(tree, left, right, i + 1, start, count, found);
    }
}

/// The scan for delimiter pairs finds a closing delimiter without partner
/// exactly in the runs that have an excess closing delimiter, and an
/// opening delimiter left open exactly in the runs that have an excess
/// opening delimiter alone.
pub proof fn lemma_delimiter_location(tree: Seq<NodeView>, left: AST_Type, right: AST_Type)
    requires
        left != right,
    ensures
        spec_delimiter_location(tree, left, right) is ExtraRight <==> spec_has_excess_close(
            tree,
            left,
            right,
        ),
        spec_delimiter_location(tree, left, right) is Unpaired <==> spec_has_excess_open(
            tree,
            left,
            right,
        ),
{
    assert forall|p: int| 0 <= p <= 0 implies !#[trigger] spec_closes_too_often(
        tree,
        left,
        right,
        p,
    ) by {}
    lemma_delimiter_scan(tree, left, right, 0, 0, 0, Seq::empty());
}

/// Delimiter balance. In a run of at least two nodes, an excess closing
/// parenthesis is a fatal error, and an excess opening parenthesis alone
/// means that more input is needed: the run stays as it is. Once the
/// parentheses are resolved, the same holds of the braces of the run that
/// they leave.
pub proof fn lemma_delimiter_balance(tree: Seq<NodeView>, source: Seq<char>)
    requires
        tree.len() >= 2,
    ensures
        spec_has_excess_close(
            tree,
            AST_Type::Unparsed(TokenType::LEFT_PAREN),
            AST_Type::Unparsed(TokenType::RIGHT_PAREN),
        ) ==> spec_real_parse(tree, source) is Failed,
        spec_has_excess_open(
            tree,
            AST_Type::Unparsed(TokenType::LEFT_PAREN),
            AST_Type::Unparsed(TokenType::RIGHT_PAREN),
        ) ==> spec_real_parse(tree, source) == ParseView::Unfinished(tree),
        spec_parse_delimiters(tree, false, source) matches ParseView::Finished(resolved) ==> {
            &&& spec_has_excess_close(
                resolved,
                AST_Type::Unparsed(TokenType::LEFT_BRACE),
                AST_Type::Unparsed(TokenType::RIGHT_BRACE),
            ) ==> spec_real_parse(tree, source) is Failed
            &&& spec_has_excess_open(
                resolved,
                AST_Type::Unparsed(TokenType::LEFT_BRACE),
                AST_Type::Unparsed(TokenType::RIGHT_BRACE),
            ) ==> spec_real_parse(tree, source) == ParseView::Unfinished(resolved)
        },
{
    lemma_delimiter_location(
        tree,
        AST_Type::Unparsed(TokenType::LEFT_PAREN),
        AST_Type::Unparsed(TokenType::RIGHT_PAREN),
    );
    lemma_parse_delimiters_len(tree, false, source);
    match spec_parse_delimiters(tree, false, source) {
        ParseView::Finished(resolved) => {
            lemma_delimiter_location(
                resolved,
                AST_Type::Unparsed(TokenType::LEFT_BRACE),
                AST_Type::Unparsed(TokenType::RIGHT_BRACE),
            );
        },
        _ => {},
    }
}

// ---------------------------------------------------------------------
// Associativity and precedence
// ---------------------------------------------------------------------
/// Left associativity. Two operators of one pass between three operands
/// fold to the left: `a x b y c` becomes `y` with the children `x`,
/// itself with the children `a` and `b`, and `c`.
pub proof fn lemma_fold_nests_to_the_left(
    a: NodeView,
    x: NodeView,
    b: NodeView,
    y: NodeView,
    c: NodeView,
    left: Seq<AST_Type>,
    ops: Seq<TokenType>,
    right: Seq<AST_Type>,
    result_type: AST_Type,
    source: Seq<char>,
)
    requires
        left.contains(a.ast_type),
        left.contains(result_type),
        right.contains(b.ast_type),
        right.contains(c.ast_type),
        spec_is_operator(x, ops),
        spec_is_operator(y, ops),
    ensures
        spec_left_assoc_from(seq![a, x, b, y, c], 0, left, ops, right, result_type, source)
            == ParseView::Finished(
            seq![
                spec_adopt(y, result_type, seq![spec_adopt(x, result_type, seq![a, b]), c]),
            ],
        ),
{
    let first = spec_adopt(x, result_type, seq![a, b]);
    let second = spec_adopt(y, result_type, seq![first, c]);
    let start = seq![a, x, b, y, c];
    assert(spec_splice(start, 0, 3, first) =~= seq![first, y, c]);
    assert(spec_splice(seq![first, y, c], 0, 3, second) =~= seq![second]);
    assert(spec_left_assoc_from(seq![second], 0, left, ops, right, result_type, source)
        == ParseView::Finished(seq![second]));
    assert(spec_left_assoc_from(seq![first, y, c], 0, left, ops, right, result_type, source)
        == spec_left_assoc_from(seq![second], 0, left, ops, right, result_type, source));
    assert(spec_left_assoc_from(start, 0, left, ops, right, result_type, source)
        == spec_left_assoc_from(seq![first, y, c], 0, left, ops, right, result_type, source));
}

/// Precedence. The pass of an operator `x` runs before the pass of an
/// operator `y`, so in `a x b y c` the operator `x` takes its operands
/// first, and `y` gets the folded `x` as its left operand. (A string
/// literal is an operand, so no pass takes string tokens for operators.)
#[verifier::rlimit(40)]
pub proof fn lemma_earlier_pass_binds_tighter(
    a: NodeView,
    x: NodeView,
    b: NodeView,
    y: NodeView,
    c: NodeView,
    first_ops: Seq<TokenType>,
    second_ops: Seq<TokenType>,
    source: Seq<char>,
)
    requires
        spec_rvalues().contains(a.ast_type),
        spec_rvalues().contains(b.ast_type),
        spec_rvalues().contains(c.ast_type),
        spec_is_operator(x, first_ops),
        !spec_is_operator(y, first_ops),
        spec_is_operator(y, second_ops),
        !first_ops.contains(TokenType::STRING),
        !second_ops.contains(TokenType::STRING),
    ensures
        ({
            let expr = AST_Type::Expr(ExprType::Normal);
            let folded = spec_adopt(x, expr, seq![a, b]);
            &&& spec_parse_ternary_left_assoc(
                seq![a, x, b, y, c],
                spec_rvalues(),
                first_ops,
                spec_rvalues(),
                expr,
                source,
            ) == ParseView::Finished(seq![folded, y, c])
            &&& spec_parse_ternary_left_assoc(
                seq![folded, y, c],
                spec_rvalues(),
                second_ops,
                spec_rvalues(),
                expr,
                source,
            ) == ParseView::Finished(seq![spec_adopt(y, expr, seq![folded, c])])
        }),
{
    let expr = AST_Type::Expr(ExprType::Normal);
    let values = spec_rvalues();
    let folded = spec_adopt(x, expr, seq![a, b]);
    let top = spec_adopt(y, expr, seq![folded, c]);
    let start = seq![a, x, b, y, c];
    assert(values[0] == expr);
    assert(values.contains(expr));
    lemma_rvalues(a.ast_type);
    lemma_rvalues(c.ast_type);
    assert(!spec_is_operator(a, first_ops) && !spec_is_operator(c, first_ops));
    assert(!spec_is_operator(c, second_ops) && !spec_is_operator(folded, second_ops));
    assert(spec_splice(start, 0, 3, folded) =~= seq![folded, y, c]);
    assert(spec_splice(seq![folded, y, c], 0, 3, top) =~= seq![top]);
    // The first pass folds `x` and passes over `y`.
    assert(spec_left_assoc_from(seq![folded, y, c], 1, values, first_ops, values, expr, source)
        == ParseView::Finished(seq![folded, y, c]));
    assert(spec_left_assoc_from(seq![folded, y, c], 0, values, first_ops, values, expr, source)
        == ParseView::Finished(seq![folded, y, c]));
    assert(spec_left_assoc_from(start, 0, values, first_ops, values, expr, source)
        == spec_left_assoc_from(seq![folded, y, c], 0, values, first_ops, values, expr, source));
    // The second pass folds `y`.
    assert(spec_left_assoc_from(seq![top], 0, values, second_ops, values, expr, source)
        == ParseView::Finished(seq![top]));
    assert(spec_left_assoc_from(seq![folded, y, c], 0, values, second_ops, values, expr, source)
        == spec_left_assoc_from(seq![top], 0, values, second_ops, values, expr, source));
}

// ---------------------------------------------------------------------
// The run only shrinks
// ---------------------------------------------------------------------
pub proof fn lemma_function_definition_len(tree: Seq<NodeView>, i: int, source: Seq<char>)
    ensures
        spec_tree_of(spec_parse_function_definition_from(tree, i, source)).len() <= tree.len(),
        !(spec_parse_function_definition_from(tree, i, source) is Unfinished),
    decreases tree.len() - i,
{
    if i < 0 || i >= tree.len() {
    } else if tree[i].ast_type != AST_Type::Unparsed(TokenType::FN) {
        lemma_function_definition_len(tree, i + 1, source);
    } else if i + 1 >= tree.len() || tree[i + 1].ast_type != AST_Type::Identifier {
    } else if i + 2 >= tree.len() || tree[i + 2].ast_type != AST_Type::Expr(ExprType::Paren) {
    } else if i + 3 >= tree.len() || tree[i + 3].ast_type != AST_Type::Stmt(StmtType::Braced) {
    } else {
        lemma_function_definition_len(
            spec_splice(
                tree,
                i,
                i + 4,
                spec_adopt(
                    tree[i],
                    AST_Type::Stmt(StmtType::FunctionDef),
                    tree.subrange(i + 1, i + 4),
                ),
            ),
            i + 1,
            source,
        );
    }
}

pub proof fn lemma_function_call_len(tree: Seq<NodeView>, i: int)
    ensures
        spec_parse_function_call_from(tree, i).len() <= tree.len(),
    decreases tree.len() - i,
{
    if i < 0 || i + 1 >= tree.len() {
    } else if spec_is_callee(tree[i]) && tree[i + 1].ast_type == AST_Type::Expr(ExprType::Paren) {
        lemma_function_call_len(
            spec_splice(
                tree,
                i,
                i + 2,
                spec_adopt(tree[i], AST_Type::Expr(ExprType::Function), seq![tree[i + 1]]),
            ),
            i + 1,
        );
    } else {
        lemma_function_call_len(tree, i + 1);
    }
}

pub proof fn lemma_prefix_len(
    tree: Seq<NodeView>,
    i: int,
    prefix_types: Seq<AST_Type>,
    sequential_types: Seq<AST_Type>,
    valid_after: Seq<AST_Type>,
    result_type: AST_Type,
    source: Seq<char>,
)
    ensures
        spec_tree_of(
            spec_parse_prefix_from(
                tree,
                i,
                prefix_types,
                sequential_types,
                valid_after,
                result_type,
                source,
            ),
        ).len() <= tree.len(),
        !(spec_parse_prefix_from(
                tree,
                i,
                prefix_types,
                sequential_types,
                valid_after,
                result_type,
                source,
            ) is Unfinished),
    decreases tree.len() - i,
{
    if i < 0 || i >= tree.len() {
    } else if (i > 0 && !valid_after.contains(tree[i - 1].ast_type)) || !prefix_types.contains(
        tree[i].ast_type,
    ) {
        lemma_prefix_len(
            tree,
            i + 1,
            prefix_types,
            sequential_types,
            valid_after,
            result_type,
            source,
        );
    } else if i + 1 >= tree.len() || !sequential_types.contains(tree[i + 1].ast_type) {
    } else {
        lemma_prefix_len(
            spec_splice(tree, i, i + 2, spec_adopt(tree[i], result_type, seq![tree[i + 1]])),
            i + 1,
            prefix_types,
            sequential_types,
            valid_after,
            result_type,
            source,
        );
    }
}

pub proof fn lemma_left_assoc_len(
    tree: Seq<NodeView>,
    i: int,
    left: Seq<AST_Type>,
    ops: Seq<TokenType>,
    right: Seq<AST_Type>,
    result_type: AST_Type,
    source: Seq<char>,
)
    ensures
        spec_tree_of(spec_left_assoc_from(tree, i, left, ops, right, result_type, source)).len()
            <= tree.len(),
        !(spec_left_assoc_from(tree, i, left, ops, right, result_type, source) is Unfinished),
    decreases tree.len() - i,
{
    if i < 0 || i + 2 >= tree.len() {
    } else if !spec_is_operator(tree[i + 1], ops) || !left.contains(tree[i].ast_type) {
        lemma_left_assoc_len(tree, i + 1, left, ops, right, result_type, source);
    } else if !right.contains(tree[i + 2].ast_type) {
    } else {
        lemma_left_assoc_len(
            spec_splice(
                tree,
                i,
                i + 3,
                spec_adopt(tree[i + 1], result_type, seq![tree[i], tree[i + 2]]),
            ),
            i,
            left,
            ops,
            right,
            result_type,
            source,
        );
    }
}

pub proof fn lemma_assignment_like_len(
    tree: Seq<NodeView>,
    i: int,
    key_types: Seq<AST_Type>,
    result_type: AST_Type,
    source: Seq<char>,
)
    ensures
        spec_tree_of(
            spec_parse_assignment_like_from(tree, i, key_types, result_type, source),
        ).len() <= tree.len(),
        !(spec_parse_assignment_like_from(tree, i, key_types, result_type, source) is Unfinished),
    decreases tree.len() - i,
{
    if i < 0 || i >= tree.len() {
    } else if i + 1 >= tree.len() || !key_types.contains(tree[i + 1].ast_type) {
        lemma_assignment_like_len(tree, i + 1, key_types, result_type, source);
    } else if tree[i].ast_type != AST_Type::Identifier {
    } else if i + 2 >= tree.len() || !spec_rvalues().contains(tree[i + 2].ast_type) {
    } else if i + 3 >= tree.len() || !spec_is_stmt_sep(tree[i + 3]) {
    } else {
        lemma_assignment_like_len(
            spec_splice(
                tree,
                i,
                i + 4,
                spec_adopt(tree[i + 1], result_type, seq![tree[i], tree[i + 2]]),
            ),
            i + 1,
            key_types,
            result_type,
            source,
        );
    }
}

pub proof fn lemma_comma_len(
    tree: Seq<NodeView>,
    i: int,
    expected: Seq<AST_Type>,
    result_type: AST_Type,
    source: Seq<char>,
)
    ensures
        spec_tree_of(spec_parse_comma_from(tree, i, expected, result_type, source)).len()
            <= tree.len(),
        !(spec_parse_comma_from(tree, i, expected, result_type, source) is Unfinished),
    decreases tree.len() - i,
{
    if i < 0 || i >= tree.len() {
    } else if !spec_is_comma(tree[i]) {
        lemma_comma_len(tree, i + 1, expected, result_type, source);
    } else {
        let run = spec_comma_run(tree, i, 0, expected, source);
        let count = run->Ok_0;
        let folded = spec_splice(
            tree,
            i - 1,
            i + 2 * count,
            spec_adopt(tree[i], result_type, spec_comma_operands(tree, i, count)),
        );
        if run is Err {
        } else if i < folded.len() < tree.len() {
            lemma_comma_len(folded, i + 1, expected, result_type, source);
        } else {
            lemma_comma_run_bounds(tree, i, 0, expected, source);
        }
    }
}

pub proof fn lemma_stmt_like_while_len(
    tree: Seq<NodeView>,
    i: int,
    keyword_types: Seq<AST_Type>,
    left: Seq<AST_Type>,
    right: Seq<AST_Type>,
    result_type: AST_Type,
    source: Seq<char>,
    error_1: Seq<char>,
    error_2: Seq<char>,
)
    ensures
        spec_tree_of(
            spec_parse_ternary_stmt_like_while_from(
                tree,
                i,
                keyword_types,
                left,
                right,
                result_type,
                source,
                error_1,
                error_2,
            ),
        ).len() <= tree.len(),
        !(spec_parse_ternary_stmt_like_while_from(
                tree,
                i,
                keyword_types,
                left,
                right,
                result_type,
                source,
                error_1,
                error_2,
            ) is Unfinished),
    decreases tree.len() - i,
{
    if i < 0 || i + 2 >= tree.len() {
    } else if !keyword_types.contains(tree[i].ast_type) {
        lemma_stmt_like_while_len(
            tree,
            i + 1,
            keyword_types,
            left,
            right,
            result_type,
            source,
            error_1,
            error_2,
        );
    } else if !left.contains(tree[i + 1].ast_type) {
    } else if !right.contains(tree[i + 2].ast_type) {
    } else {
        lemma_stmt_like_while_len(
            spec_splice(
                tree,
                i,
                i + 3,
                spec_adopt(tree[i], result_type, seq![tree[i + 1], tree[i + 2]]),
            ),
            i,
            keyword_types,
            left,
            right,
            result_type,
            source,
            error_1,
            error_2,
        );
    }
}

#[verifier::rlimit(40)]
pub proof fn lemma_if_len(tree: Seq<NodeView>, i: int, absorbing: bool, source: Seq<char>)
    ensures
        spec_tree_of(spec_parse_if_from(tree, i, absorbing, source)).len() <= tree.len(),
        !(spec_parse_if_from(tree, i, absorbing, source) is Unfinished),
    decreases tree.len() - i,
{
    let braced = AST_Type::Stmt(StmtType::Braced);
    let keyword = AST_Type::Unparsed(TokenType::IF);
    if i < 0 || i >= tree.len() {
    } else if !absorbing {
        if tree[i].ast_type != keyword {
            lemma_if_len(tree, i + 1, false, source);
        } else if i + 1 >= tree.len() || !spec_rvalues().contains(tree[i + 1].ast_type) {
        } else if i + 2 >= tree.len() || tree[i + 2].ast_type != braced {
        } else {
            lemma_if_len(
                spec_splice(
                    tree,
                    i,
                    i + 3,
                    spec_adopt(
                        tree[i],
                        AST_Type::Stmt(StmtType::If),
                        seq![tree[i + 1], tree[i + 2]],
                    ),
                ),
                i,
                true,
                source,
            );
        }
    } else if i + 1 >= tree.len() || tree[i + 1].ast_type != AST_Type::Unparsed(TokenType::ELSE) {
        lemma_if_len(tree, i + 1, false, source);
    } else if i + 2 >= tree.len() || (tree[i + 2].ast_type != braced && tree[i + 2].ast_type
        != keyword) {
    } else if tree[i + 2].ast_type == braced {
        lemma_if_len(
            spec_splice(
                tree,
                i,
                i + 3,
                spec_adopt(
                    tree[i],
                    tree[i].ast_type,
                    seq![
                        spec_adopt(tree[i + 1], AST_Type::Stmt(StmtType::Else), seq![tree[i + 2]]),
                    ],
                ),
            ),
            i + 1,
            false,
            source,
        );
    } else if i + 3 >= tree.len() || !spec_rvalues().contains(tree[i + 3].ast_type) {
    } else if i + 4 >= tree.len() || tree[i + 4].ast_type != braced {
    } else {
        lemma_if_len(
            spec_splice(
                tree,
                i,
                i + 5,
                spec_adopt(
                    tree[i],
                    tree[i].ast_type,
                    seq![
                        spec_adopt(
                            tree[i + 2],
                            AST_Type::Stmt(StmtType::Elseif),
                            seq![tree[i + 3], tree[i + 4]],
                        ),
                    ],
                ),
            ),
            i,
            true,
            source,
        );
    }
}

pub proof fn lemma_stmt_sep_len(tree: Seq<NodeView>, i: int)
    ensures
        spec_parse_stmt_sep_from(tree, i).len() <= tree.len(),
    decreases tree.len() - i,
{
    if i < 0 || i >= tree.len() {
    } else if !spec_is_stmt_sep(tree[i]) {
        lemma_stmt_sep_len(tree, i + 1);
    } else if i == 0 || tree[i - 1].ast_type is Stmt {
        lemma_stmt_sep_len(tree.remove(i), i);
    } else {
        lemma_stmt_sep_len(
            spec_splice(
                tree,
                i - 1,
                i + 1,
                spec_adopt(tree[i], AST_Type::Stmt(StmtType::Normal), seq![tree[i - 1]]),
            ),
            i,
        );
    }
}

pub proof fn lemma_compound_len(tree: Seq<NodeView>, i: int, open: int)
    ensures
        spec_parse_compound_from(tree, i, open).len() <= tree.len(),
    decreases tree.len() - i,
{
    if i < 0 || i >= tree.len() {
    } else if !(tree[i].ast_type is Stmt) {
        lemma_compound_len(tree, i + 1, -1);
    } else if 0 <= open < i {
        lemma_compound_len(
            tree.remove(i).update(
                open,
                spec_adopt(tree[open], tree[open].ast_type, spec_statements_of(tree[i])),
            ),
            i,
            open,
        );
    } else {
        lemma_compound_len(
            tree.update(
                i,
                spec_adopt(
                    spec_leaf(AST_Type::Stmt(StmtType::Compound), spec_dummy_token()),
                    AST_Type::Stmt(StmtType::Compound),
                    spec_statements_of(tree[i]),
                ),
            ),
            i + 1,
            i,
        );
    }
}

/// No pass makes a run longer.
#[verifier::rlimit(40)]
pub proof fn lemma_pass_len(tree: Seq<NodeView>, stage: int, source: Seq<char>)
    ensures
        spec_tree_of(spec_pass(tree, stage, source)).len() <= tree.len(),
        !(spec_pass(tree, stage, source) is Unfinished),
{
    let expr = AST_Type::Expr(ExprType::Normal);
    if stage == 0 {
        lemma_function_definition_len(tree, 0, source);
    } else if stage == 1 {
        lemma_function_call_len(tree, 0);
    } else if stage == 2 {
        lemma_prefix_len(
            tree,
            0,
            seq![AST_Type::Unparsed(TokenType::MINUS)],
            seq![expr, AST_Type::Expr(ExprType::Paren), AST_Type::Identifier],
            spec_valid_before_minus(),
            AST_Type::Expr(ExprType::Negated),
            source,
        );
    } else if stage == 3 {
        lemma_left_assoc_len(
            tree,
            0,
            spec_rvalues(),
            seq![TokenType::STAR, TokenType::SLASH, TokenType::PERCENT],
            spec_rvalues(),
            expr,
            source,
        );
    } else if stage == 4 {
        lemma_left_assoc_len(
            tree,
            0,
            spec_rvalues(),
            seq![TokenType::PLUS, TokenType::MINUS],
            spec_rvalues(),
            expr,
            source,
        );
    } else if stage == 5 {
        lemma_left_assoc_len(
            tree,
            0,
            spec_rvalues(),
            seq![
                TokenType::GREATER,
                TokenType::GREATER_EQUAL,
                TokenType::LESS,
                TokenType::LESS_EQUAL,
            ],
            spec_rvalues(),
            expr,
            source,
        );
    } else if stage == 6 {
        lemma_left_assoc_len(
            tree,
            0,
            spec_rvalues(),
            seq![TokenType::EQUAL_EQUAL, TokenType::BANG_EQUAL],
            spec_rvalues(),
            expr,
            source,
        );
    } else if stage == 7 {
        lemma_assignment_like_len(
            tree,
            0,
            seq![AST_Type::Unparsed(TokenType::EQUAL)],
            AST_Type::Stmt(StmtType::Assignment),
            source,
        );
    } else if stage == 8 {
        lemma_assignment_like_len(
            tree,
            0,
            seq![AST_Type::Unparsed(TokenType::PLUS_EQUAL)],
            AST_Type::Stmt(StmtType::PlusEqual),
            source,
        );
    } else if stage == 9 {
        lemma_assignment_like_len(
            tree,
            0,
            seq![AST_Type::Unparsed(TokenType::MINUS_EQUAL)],
            AST_Type::Stmt(StmtType::MinusEqual),
            source,
        );
    } else if stage == 10 {
        lemma_assignment_like_len(
            tree,
            0,
            seq![AST_Type::Unparsed(TokenType::STAR_EQUAL)],
            AST_Type::Stmt(StmtType::StarEqual),
            source,
        );
    } else if stage == 11 {
        lemma_assignment_like_len(
            tree,
            0,
            seq![AST_Type::Unparsed(TokenType::SLASH_EQUAL)],
            AST_Type::Stmt(StmtType::SlashEqual),
            source,
        );
    } else if stage == 12 {
        lemma_prefix_len(
            tree,
            0,
            seq![AST_Type::Unparsed(TokenType::VAR)],
            seq![AST_Type::Stmt(StmtType::Assignment)],
            spec_valid_before_var(),
            AST_Type::Stmt(StmtType::Declaration),
            source,
        );
    } else if stage == 13 {
        lemma_comma_len(tree, 0, spec_rvalues(), AST_Type::Tuple, source);
    } else if stage == 14 {
        lemma_stmt_like_while_len(
            tree,
            0,
            seq![AST_Type::Unparsed(TokenType::WHILE)],
            seq![AST_Type::Expr(ExprType::Paren), expr],
            seq![AST_Type::Stmt(StmtType::Braced)],
            AST_Type::Stmt(StmtType::While),
            source,
            "Expected expression after while"@,
            "Expected {stmt} after while"@,
        );
    } else if stage == 15 {
        lemma_if_len(tree, 0, false, source);
    } else if stage == 16 {
        lemma_stmt_sep_len(tree, 0);
    } else {
        lemma_compound_len(tree, 0, -1);
    }
}

pub proof fn lemma_passes_from_len(tree: Seq<NodeView>, stage: int, source: Seq<char>)
    ensures
        spec_tree_of(spec_passes_from(tree, stage, source)).len() <= tree.len(),
        spec_passes_from(tree, stage, source) matches ParseView::Finished(t) ==> t.len() <= 1,
        !(spec_passes_from(tree, stage, source) is Unfinished),
    decreases PASS_COUNT - stage,
{
    if stage < 0 || stage >= PASS_COUNT {
    } else {
        lemma_pass_len(tree, stage, source);
        match spec_pass(tree, stage, source) {
            ParseView::Finished(t) => {
                lemma_passes_from_len(t, stage + 1, source);
            },
            _ => {},
        }
    }
}

/// A parse never makes the run longer, and a parse that is finished
/// leaves at most one node.
pub proof fn lemma_real_parse_len(tree: Seq<NodeView>, source: Seq<char>)
    ensures
        spec_tree_of(spec_real_parse(tree, source)).len() <= tree.len(),
        spec_real_parse(tree, source) matches ParseView::Finished(t) ==> t.len() <= 1,
{
    if tree.len() > 1 {
        lemma_parse_delimiters_len(tree, false, source);
        let parens = spec_parse_delimiters(tree, false, source);
        if parens is Finished {
            lemma_parse_delimiters_len(spec_tree_of(parens), true, source);
            let braces = spec_parse_delimiters(spec_tree_of(parens), true, source);
            if braces is Finished {
                lemma_passes_from_len(spec_tree_of(braces), 0, source);
            }
        }
    }
}

/// Whether an opening parenthesis or an opening brace of a run is left
/// open while every closing one of its kind has its partner.
pub open spec fn spec_has_open_delimiter(tree: Seq<NodeView>) -> bool {
    ||| spec_has_excess_open(
        tree,
        AST_Type::Unparsed(TokenType::LEFT_PAREN),
        AST_Type::Unparsed(TokenType::RIGHT_PAREN),
    )
    ||| spec_has_excess_open(
        tree,
        AST_Type::Unparsed(TokenType::LEFT_BRACE),
        AST_Type::Unparsed(TokenType::RIGHT_BRACE),
    )
}

/// More input is asked for only where an opening delimiter has no
/// partner: where a parse is unfinished, either the run has an opening
/// parenthesis left open, or the run that the parentheses leave has an
/// opening brace left open. Then the run that the parse leaves is that
/// run.
pub proof fn lemma_unfinished_only_for_open_delimiter(tree: Seq<NodeView>, source: Seq<char>)
    ensures
        spec_real_parse(tree, source) matches ParseView::Unfinished(left) ==> {
            ||| (left == tree && spec_has_excess_open(
                tree,
                AST_Type::Unparsed(TokenType::LEFT_PAREN),
                AST_Type::Unparsed(TokenType::RIGHT_PAREN),
            ))
            ||| (spec_parse_delimiters(tree, false, source) == ParseView::Finished(left)
                && spec_has_excess_open(
                left,
                AST_Type::Unparsed(TokenType::LEFT_BRACE),
                AST_Type::Unparsed(TokenType::RIGHT_BRACE),
            ))
        },
{
    if tree.len() > 1 {
        lemma_parse_delimiters_len(tree, false, source);
        lemma_delimiter_location(
            tree,
            AST_Type::Unparsed(TokenType::LEFT_PAREN),
            AST_Type::Unparsed(TokenType::RIGHT_PAREN),
        );
        lemma_parse_delimiters_not_unfinished(tree, false, source);
        let parens = spec_parse_delimiters(tree, false, source);
        if parens is Finished {
            let resolved = spec_tree_of(parens);
            lemma_delimiter_location(
                resolved,
                AST_Type::Unparsed(TokenType::LEFT_BRACE),
                AST_Type::Unparsed(TokenType::RIGHT_BRACE),
            );
            lemma_parse_delimiters_not_unfinished(resolved, true, source);
            let braces = spec_parse_delimiters(resolved, true, source);
            if braces is Finished {
                lemma_passes_from_len(spec_tree_of(braces), 0, source);
            }
        }
    }
}

/// Resolving delimiters asks for more input only where the scan finds an
/// opening delimiter left open, and leaves the run as it is then.
pub proof fn lemma_parse_delimiters_not_unfinished(
    tree: Seq<NodeView>,
    braces: bool,
    source: Seq<char>,
)
    ensures
        spec_parse_delimiters(tree, braces, source) matches ParseView::Unfinished(left) ==> left
            == tree && spec_delimiter_location(
            tree,
            AST_Type::Unparsed(
                if braces {
                    TokenType::LEFT_BRACE
                } else {
                    TokenType::LEFT_PAREN
                },
            ),
            AST_Type::Unparsed(
                if braces {
                    TokenType::RIGHT_BRACE
                } else {
                    TokenType::RIGHT_PAREN
                },
            ),
        ) is Unpaired,
{
    let left = AST_Type::Unparsed(
        if braces {
            TokenType::LEFT_BRACE
        } else {
            TokenType::LEFT_PAREN
        },
    );
    let right = AST_Type::Unparsed(
        if braces {
            TokenType::RIGHT_BRACE
        } else {
            TokenType::RIGHT_PAREN
        },
    );
    match spec_delimiter_location(tree, left, right) {
        DelimiterScan::Balanced(pairs) => {
            lemma_fold_delimited_len(tree, pairs, pairs.len() as int, braces, source);
        },
        _ => {},
    }
}

} // verus!
