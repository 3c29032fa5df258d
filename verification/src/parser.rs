//! The parser: a fixed order of rewrite passes over the working buffer.
//! Each pass scans the run of nodes and folds the runs it recognises into
//! single nodes, so the buffer only ever shrinks.
use crate::ast_node::{
    group_views, spec_all_expr, spec_all_stmt, spec_leaf, views, AST_Node, AST_Type, ExprType,
    NodeView, StmtType,
};
use crate::err_lox::{spec_error_at, ErrorLox, ErrorType, ErrorView};
use crate::parse_tree_unfinished::{
    pattern_sets, spec_fails_at, spec_is_stmt_sep, spec_leaves_of, spec_position_matches,
    token_views, ParseTreeUnfinshed, PatternMatchingRes,
};
use crate::parser_properties::{
    lemma_real_parse_len, lemma_unfinished_only_for_open_delimiter, spec_has_open_delimiter,
};
use crate::token::{spec_dummy_token, Token, TokenType};
use crate::well_formed::{
    lemma_concat_well_formed, lemma_leaves_well_formed, lemma_real_parse_well_formed,
    lemma_scan_pairs, spec_all_well_formed, spec_left_delimiter, spec_pairs_in_order,
    spec_right_delimiter,
};
use vstd::prelude::*;

verus! {

broadcast use group_views;

/// How a parse ended.
#[derive(Debug)]
pub enum ParseState {
    /// One node is left: the root of the tree.
    Finished,
    /// More input is needed.
    Unfinished,
    /// The input is malformed.
    Error(ErrorLox),
}

/// The mathematical outcome of a pass or of a whole parse: the state it
/// ends in, with the run of nodes it leaves behind unless it failed.
pub enum ParseView {
    Finished(Seq<NodeView>),
    Unfinished(Seq<NodeView>),
    Failed(ErrorView),
}

/// Whether the state that a pass returned and the run that it left are
/// those of `expected`. After a failure the run is of no further use: each
/// pass says of it only that it is no longer than before.
pub open spec fn state_agrees(state: ParseState, tree: Seq<NodeView>, expected: ParseView) -> bool {
    match expected {
        ParseView::Finished(t) => state is Finished && tree == t,
        ParseView::Unfinished(t) => state is Unfinished && tree == t,
        ParseView::Failed(e) => state is Error && state->Error_0@ == e,
    }
}

/// The diagnostic that points at `node` in the text named `source`.
pub open spec fn spec_node_error(
    node: NodeView,
    description: Seq<char>,
    source: Seq<char>,
) -> ErrorView {
    spec_error_at(description, node.token.line, node.token.column, source)
}

/// `parent`, reclassified as `ast_type`, with `kids` behind its children.
pub open spec fn spec_adopt(parent: NodeView, ast_type: AST_Type, kids: Seq<NodeView>) -> NodeView {
    NodeView { ast_type, token: parent.token, children: parent.children + kids }
}

/// The run in which `node` stands in place of the nodes from `from` up to,
/// not including, `to`.
pub open spec fn spec_splice(tree: Seq<NodeView>, from: int, to: int, node: NodeView) -> Seq<
    NodeView,
> {
    tree.subrange(0, from).push(node) + tree.subrange(to, tree.len() as int)
}

/// The classifications of nodes that have a value: expressions, names
/// and string literals, which stay unparsed leaves.
pub open spec fn spec_rvalues() -> Seq<AST_Type> {
    spec_all_expr().push(AST_Type::Identifier).push(AST_Type::Unparsed(TokenType::STRING))
}

/// The operator tokens that stand between two operands.
pub open spec fn spec_copulative() -> Seq<AST_Type> {
    seq![
        AST_Type::Unparsed(TokenType::PLUS),
        AST_Type::Unparsed(TokenType::PLUS_EQUAL),
        AST_Type::Unparsed(TokenType::MINUS),
        AST_Type::Unparsed(TokenType::MINUS_EQUAL),
        AST_Type::Unparsed(TokenType::STAR),
        AST_Type::Unparsed(TokenType::STAR_EQUAL),
        AST_Type::Unparsed(TokenType::SLASH),
        AST_Type::Unparsed(TokenType::SLASH_EQUAL),
        AST_Type::Unparsed(TokenType::EQUAL),
        AST_Type::Unparsed(TokenType::EQUAL_EQUAL),
        AST_Type::Unparsed(TokenType::BANG_EQUAL),
        AST_Type::Unparsed(TokenType::GREATER),
        AST_Type::Unparsed(TokenType::GREATER_EQUAL),
        AST_Type::Unparsed(TokenType::LESS),
        AST_Type::Unparsed(TokenType::LESS_EQUAL),
    ]
}

pub fn rvalues() -> (r: Vec<AST_Type>)
    ensures
        r@ == spec_rvalues(),
{
    let mut r = AST_Type::get_all_expr();
    r.push(AST_Type::Identifier);
    r.push(AST_Type::Unparsed(TokenType::STRING));
    r
}

pub fn copulative() -> (r: Vec<AST_Type>)
    ensures
        r@ == spec_copulative(),
{
    vec![
        AST_Type::Unparsed(TokenType::PLUS),
        AST_Type::Unparsed(TokenType::PLUS_EQUAL),
        AST_Type::Unparsed(TokenType::MINUS),
        AST_Type::Unparsed(TokenType::MINUS_EQUAL),
        AST_Type::Unparsed(TokenType::STAR),
        AST_Type::Unparsed(TokenType::STAR_EQUAL),
        AST_Type::Unparsed(TokenType::SLASH),
        AST_Type::Unparsed(TokenType::SLASH_EQUAL),
        AST_Type::Unparsed(TokenType::EQUAL),
        AST_Type::Unparsed(TokenType::EQUAL_EQUAL),
        AST_Type::Unparsed(TokenType::BANG_EQUAL),
        AST_Type::Unparsed(TokenType::GREATER),
        AST_Type::Unparsed(TokenType::GREATER_EQUAL),
        AST_Type::Unparsed(TokenType::LESS),
        AST_Type::Unparsed(TokenType::LESS_EQUAL),
    ]
}

/// The diagnostic that points at `node` in the text named `source`.
pub fn node_error(node: &AST_Node, description: &str, source: &str) -> (r: ErrorLox)
    ensures
        r@ == spec_node_error(node@, description@, source@),
{
    ErrorLox::from_filename(description, node.token.line, node.token.column, source)
}

/// Puts `node` in place of the nodes from `from` up to, not including,
/// `to`, and hands over the nodes that were taken out.
pub fn splice(tree: &mut ParseTreeUnfinshed, from: usize, to: usize, node: AST_Node) -> (r:
    ParseTreeUnfinshed)
    requires
        from <= to <= old(tree)@.len(),
    ensures
        final(tree)@ == spec_splice(old(tree)@, from as int, to as int, node@),
        r@ == old(tree)@.subrange(from as int, to as int),
{
    let taken = tree.drain(from, to);
    tree.insert(from, node);
    assert(tree@ =~= spec_splice(old(tree)@, from as int, to as int, node@));
    taken
}

// ---------------------------------------------------------------------
// Delimiters
// ---------------------------------------------------------------------
/// What a scan for the outermost pairs of one kind of delimiter finds.
pub enum DelimiterScan {
    /// Every opening delimiter has its partner: the outermost pairs, each
    /// as the positions of its opening and closing delimiter, in order.
    Balanced(Seq<(usize, usize)>),
    /// The closing delimiter at this position has no partner.
    ExtraRight(int),
    /// An opening delimiter is still open at the end of the run.
    Unpaired,
}

/// The scan from position `i` on, where `count` delimiters are open, the
/// outermost of them at `start`, and `found` holds the pairs closed so far.
pub open spec fn spec_delimiter_scan(
    tree: Seq<NodeView>,
    left: AST_Type,
    right: AST_Type,
    i: int,
    start: int,
    count: int,
    found: Seq<(usize, usize)>,
) -> DelimiterScan
    decreases tree.len() - i,
{
    if i < 0 || i >= tree.len() {
        if count > 0 {
            DelimiterScan::Unpaired
        } else {
            DelimiterScan::Balanced(found)
        }
    } else if tree[i].ast_type == left {
        spec_delimiter_scan(
            tree,
            left,
            right,
            i + 1,
            if count == 0 {
                i
            } else {
                start
            },
            count + 1,
            found,
        )
    } else if tree[i].ast_type == right {
        if count <= 0 {
            DelimiterScan::ExtraRight(i)
        } else if count == 1 {
            spec_delimiter_scan(
                tree,
                left,
                right,
                i + 1,
                start,
                0,
                found.push((start as usize, i as usize)),
            )
        } else {
            spec_delimiter_scan(tree, left, right, i + 1, start, count - 1, found)
        }
    } else {
        spec_delimiter_scan(tree, left, right, i + 1, start, count, found)
    }
}

/// The scan of a whole run.
pub open spec fn spec_delimiter_location(
    tree: Seq<NodeView>,
    left: AST_Type,
    right: AST_Type,
) -> DelimiterScan {
    spec_delimiter_scan(tree, left, right, 0, 0, 0, Seq::empty())
}

/// The diagnostic for an opening delimiter left open: it points at the last
/// node of the run and has the kind `UnterminatedDelimiter`.
pub open spec fn spec_unpaired_error(tree: Seq<NodeView>, source: Seq<char>) -> ErrorView {
    ErrorView {
        error_type: ErrorType::UnterminatedDelimiter,
        ..spec_node_error(tree[tree.len() - 1], "Unpaired left delimiter"@, source)
    }
}

/// Finds the outermost pairs of the delimiters `left` and `right`.
/// A closing delimiter without partner is an error at that delimiter; an
/// opening delimiter without partner is an error of the kind
/// `UnterminatedDelimiter`.
pub fn get_delimiter_location(
    left: AST_Type,
    right: AST_Type,
    tree: &ParseTreeUnfinshed,
    source: &str,
) -> (r: Result<Vec<(usize, usize)>, ErrorLox>)
    ensures
        match spec_delimiter_location(tree@, left, right) {
            DelimiterScan::Balanced(pairs) => r is Ok && r->Ok_0@ == pairs,
            DelimiterScan::ExtraRight(at) => r is Err && 0 <= at < tree@.len() && r->Err_0@
                == spec_node_error(tree@[at], "Extra right delimiter"@, source@),
            DelimiterScan::Unpaired => r is Err && tree@.len() > 0 && r->Err_0@
                == spec_unpaired_error(tree@, source@),
        },
{
    let mut ret: Vec<(usize, usize)> = Vec::new();
    let mut start: usize = 0;
    let mut count: usize = 0;
    let mut i: usize = 0;
    while i < tree.content.len()
        invariant
            i <= tree@.len(),
            count <= i,
            spec_delimiter_scan(tree@, left, right, i as int, start as int, count as int, ret@)
                == spec_delimiter_location(tree@, left, right),
        decreases tree@.len() - i,
    {
        let kind = tree.content[i].get_AST_Type();
        if kind == left {
            if count == 0 {
                start = i;
            }
            count += 1;
        } else if kind == right {
            if count == 0 {
                return Err(node_error(&tree.content[i], "Extra right delimiter", source));
            }
            count -= 1;
            if count == 0 {
                ret.push((start, i));
            }
        }
        i += 1;
    }
    if count > 0 {
        let mut e = node_error(&tree.content[tree.len() - 1], "Unpaired left delimiter", source);
        e.set_error_type(ErrorType::UnterminatedDelimiter);
        return Err(e);
    }
    Ok(ret)
}

// ---------------------------------------------------------------------
// Binary operators
// ---------------------------------------------------------------------
/// Whether a node is one of the operators `ops` that no pass has folded
/// yet.
pub open spec fn spec_is_operator(node: NodeView, ops: Seq<TokenType>) -> bool {
    node.ast_type == AST_Type::Unparsed(node.token.token_type) && ops.contains(
        node.token.token_type,
    )
}

/// Whether a node is one of the operators `ops` that no pass has folded
/// yet.
pub fn is_operator(node: &AST_Node, ops: &[TokenType]) -> (r: bool)
    ensures
        r == spec_is_operator(node@, ops@),
{
    node.get_AST_Type() == AST_Type::Unparsed(node.get_token_type())
        && node.belongs_to_Token_type(ops)
}

/// The left-associative fold from position `i` on: wherever a left
/// operand, an operator token and a right operand stand in a row, the
/// operator adopts the two operands, and the scan goes on at the folded
/// node.
pub open spec fn spec_left_assoc_from(
    tree: Seq<NodeView>,
    i: int,
    left: Seq<AST_Type>,
    ops: Seq<TokenType>,
    right: Seq<AST_Type>,
    result_type: AST_Type,
    source: Seq<char>,
) -> ParseView
    decreases tree.len() - i,
{
    if i < 0 || i + 2 >= tree.len() {
        ParseView::Finished(tree)
    } else if !spec_is_operator(tree[i + 1], ops) || !left.contains(tree[i].ast_type) {
        spec_left_assoc_from(tree, i + 1, left, ops, right, result_type, source)
    } else if !right.contains(tree[i + 2].ast_type) {
        ParseView::Failed(spec_node_error(tree[i + 2], "Expected right operand"@, source))
    } else {
        spec_left_assoc_from(
            spec_splice(
                tree,
                i,
                i + 3,
                spec_adopt(tree[i + 1], result_type, seq![tree[i], tree[i + 2]]),
            ),
            i,
            left,
            ops,
            right,
            result_type,
            source,
        )
    }
}

/// The fold of the binary operators `ops` over a whole run. An operator at
/// either end of the run has an operand missing and is an error.
pub open spec fn spec_parse_ternary_left_assoc(
    tree: Seq<NodeView>,
    left: Seq<AST_Type>,
    ops: Seq<TokenType>,
    right: Seq<AST_Type>,
    result_type: AST_Type,
    source: Seq<char>,
) -> ParseView {
    if tree.len() == 0 {
        ParseView::Finished(tree)
    } else if spec_is_operator(tree[0], ops) {
        ParseView::Failed(spec_node_error(tree[0], "Operator found in the beginning"@, source))
    } else if spec_is_operator(tree[tree.len() - 1], ops) {
        ParseView::Failed(
            spec_node_error(tree[tree.len() - 1], "Operator found in the end"@, source),
        )
    } else {
        spec_left_assoc_from(tree, 0, left, ops, right, result_type, source)
    }
}

/// Folds the binary operators whose tokens are `operator_token_types`,
/// from left to right. After a fold the scan stays at the folded node, so
/// a chain of operators of one pass nests to the left.
#[verifier::rlimit(40)]
pub fn parse_ternary_left_assoc(
    tree: &mut ParseTreeUnfinshed,
    left_ast_types: &[AST_Type],
    operator_token_types: &[TokenType],
    right_ast_types: &[AST_Type],
    result_type: AST_Type,
    source: &str,
) -> (r: ParseState)
    ensures
        final(tree)@.len() <= old(tree)@.len(),
        state_agrees(
            r,
            final(tree)@,
            spec_parse_ternary_left_assoc(
                old(tree)@,
                left_ast_types@,
                operator_token_types@,
                right_ast_types@,
                result_type,
                source@,
            ),
        ),
{
    if tree.len() == 0 {
        return ParseState::Finished;
    }
    if is_operator(&tree.content[0], operator_token_types) {
        return ParseState::Error(
            node_error(&tree.content[0], "Operator found in the beginning", source),
        );
    }
    if is_operator(&tree.content[tree.len() - 1], operator_token_types) {
        return ParseState::Error(
            node_error(&tree.content[tree.len() - 1], "Operator found in the end", source),
        );
    }
    let mut i: usize = 0;
    while tree.content.len() > 2 && i < tree.content.len() - 2
        invariant
            tree@.len() <= old(tree)@.len(),
            spec_left_assoc_from(
                tree@,
                i as int,
                left_ast_types@,
                operator_token_types@,
                right_ast_types@,
                result_type,
                source@,
            ) == spec_parse_ternary_left_assoc(
                old(tree)@,
                left_ast_types@,
                operator_token_types@,
                right_ast_types@,
                result_type,
                source@,
            ),
        decreases tree@.len() - i,
    {
        if !is_operator(&tree.content[i + 1], operator_token_types)
            || !tree.content[i].belongs_to_AST_type(left_ast_types) {
            i += 1;
        } else if !tree.content[i + 2].belongs_to_AST_type(right_ast_types) {
            return ParseState::Error(
                node_error(&tree.content[i + 2], "Expected right operand", source),
            );
        } else {
            let ghost before = tree@;
            let mut span = tree.drain(i, i + 3);
            let right = span.pop();
            let mut root = span.pop();
            let left = span.pop();
            root.set_AST_Type(result_type);
            root.append_child(left);
            root.append_child(right);
            assert(root@ == spec_adopt(
                before[i + 1],
                result_type,
                seq![before[i as int], before[i + 2]],
            )) by {
                assert(root@.children =~= before[i + 1].children + seq![
                    before[i as int],
                    before[i + 2],
                ]);
            }
            tree.insert(i, root);
            assert(tree@ =~= spec_splice(before, i as int, i + 3, root@));
        }
    }
    ParseState::Finished
}

// ---------------------------------------------------------------------
// Prefixes
// ---------------------------------------------------------------------
/// The node at `at`, or the last node of the run where the run ends before.
pub open spec fn spec_node_or_last(tree: Seq<NodeView>, at: int) -> NodeView {
    if at < tree.len() {
        tree[at]
    } else {
        tree[tree.len() - 1]
    }
}

/// The node at `at`, or the last node of the run where the run ends before.
pub fn node_or_last(tree: &ParseTreeUnfinshed, at: usize) -> (r: &AST_Node)
    requires
        tree@.len() > 0,
    ensures
        r@ == spec_node_or_last(tree@, at as int),
{
    if at < tree.content.len() {
        &tree.content[at]
    } else {
        &tree.content[tree.content.len() - 1]
    }
}

/// The prefix fold from position `i` on. A prefix token counts as one only
/// at the start of the run or behind a node that `valid_after` admits;
/// then the operand is owed, and the prefix adopts it.
pub open spec fn spec_parse_prefix_from(
    tree: Seq<NodeView>,
    i: int,
    prefix_types: Seq<AST_Type>,
    sequential_types: Seq<AST_Type>,
    valid_after: Seq<AST_Type>,
    result_type: AST_Type,
    source: Seq<char>,
) -> ParseView
    decreases tree.len() - i,
{
    if i < 0 || i >= tree.len() {
        ParseView::Finished(tree)
    } else if (i > 0 && !valid_after.contains(tree[i - 1].ast_type)) || !prefix_types.contains(
        tree[i].ast_type,
    ) {
        spec_parse_prefix_from(
            tree,
            i + 1,
            prefix_types,
            sequential_types,
            valid_after,
            result_type,
            source,
        )
    } else if i + 1 >= tree.len() || !sequential_types.contains(tree[i + 1].ast_type) {
        ParseView::Failed(
            spec_node_error(
                spec_node_or_last(tree, i + 1),
                "Expected operand after prefix"@,
                source,
            ),
        )
    } else {
        spec_parse_prefix_from(
            spec_splice(tree, i, i + 2, spec_adopt(tree[i], result_type, seq![tree[i + 1]])),
            i + 1,
            prefix_types,
            sequential_types,
            valid_after,
            result_type,
            source,
        )
    }
}

/// Folds a prefix token and the node behind it: the prefix node takes the
/// classification `result_type` and adopts the operand.
#[verifier::rlimit(40)]
pub fn parse_prefix(
    tree: &mut ParseTreeUnfinshed,
    prefix_types: Vec<AST_Type>,
    sequential_type: Vec<AST_Type>,
    valid_after_ast_type: Vec<AST_Type>,
    result_type: AST_Type,
    source: &str,
) -> (r: ParseState)
    ensures
        final(tree)@.len() <= old(tree)@.len(),
        state_agrees(
            r,
            final(tree)@,
            spec_parse_prefix_from(
                old(tree)@,
                0,
                prefix_types@,
                sequential_type@,
                valid_after_ast_type@,
                result_type,
                source@,
            ),
        ),
{
    let ghost pre = prefix_types@;
    let ghost seqt = sequential_type@;
    let expected: Vec<Vec<AST_Type>> = vec![prefix_types, sequential_type];
    assert(pattern_sets(expected@) =~= seq![pre, seqt]);
    let mut i: usize = 0;
    while i < tree.content.len()
        invariant
            tree@.len() <= old(tree)@.len(),
            pre == prefix_types@,
            seqt == sequential_type@,
            pattern_sets(expected@) == seq![pre, seqt],
            expected@.len() == 2,
            spec_parse_prefix_from(
                tree@,
                i as int,
                pre,
                seqt,
                valid_after_ast_type@,
                result_type,
                source@,
            ) == spec_parse_prefix_from(
                old(tree)@,
                0,
                pre,
                seqt,
                valid_after_ast_type@,
                result_type,
                source@,
            ),
        decreases tree@.len() - i,
    {
        if i > 0 && !tree.content[i - 1].belongs_to_AST_type(valid_after_ast_type.as_slice()) {
            i += 1;
        } else {
            let res = tree.match_ast_pattern(i, expected.as_slice(), 0);
            let ghost sets = pattern_sets(expected@);
            match res {
                PatternMatchingRes::Nomatch => {
                    i += 1;
                },
                PatternMatchingRes::FailedAt(num) => {
                    assert(spec_fails_at(tree@, i as int, sets, 0, num as int));
                    assert(num == 1);
                    return ParseState::Error(
                        node_error(
                            node_or_last(tree, i + 1),
                            "Expected operand after prefix",
                            source,
                        ),
                    );
                },
                PatternMatchingRes::Matched => {
                    assert(spec_position_matches(tree@, i as int, sets, 0));
                    assert(spec_position_matches(tree@, i as int, sets, 1));
                    let ghost before = tree@;
                    let mut span = tree.drain(i, i + 2);
                    let operand = span.pop();
                    let mut root = span.pop();
                    root.set_AST_Type(result_type);
                    root.append_child(operand);
                    assert(root@ == spec_adopt(before[i as int], result_type, seq![before[i + 1]]))
                        by {
                        assert(root@.children =~= before[i as int].children + seq![before[i + 1]]);
                    }
                    tree.insert(i, root);
                    assert(tree@ =~= spec_splice(before, i as int, i + 2, root@));
                    i += 1;
                },
            }
        }
    }
    ParseState::Finished
}

// ---------------------------------------------------------------------
// Assignments
// ---------------------------------------------------------------------
/// The fold of assignment-like statements from position `i` on. The
/// operator anchors the statement: a name before it, a value behind it and
/// a statement separator behind that are owed. The operator adopts name
/// and value; the separator goes.
pub open spec fn spec_parse_assignment_like_from(
    tree: Seq<NodeView>,
    i: int,
    key_types: Seq<AST_Type>,
    result_type: AST_Type,
    source: Seq<char>,
) -> ParseView
    decreases tree.len() - i,
{
    if i < 0 || i >= tree.len() {
        ParseView::Finished(tree)
    } else if i + 1 >= tree.len() || !key_types.contains(tree[i + 1].ast_type) {
        spec_parse_assignment_like_from(tree, i + 1, key_types, result_type, source)
    } else if tree[i].ast_type != AST_Type::Identifier {
        ParseView::Failed(spec_node_error(tree[i], "Expected identifier"@, source))
    } else if i + 2 >= tree.len() || !spec_rvalues().contains(tree[i + 2].ast_type) {
        ParseView::Failed(
            spec_node_error(spec_node_or_last(tree, i + 2), "Expected value"@, source),
        )
    } else if i + 3 >= tree.len() || !spec_is_stmt_sep(tree[i + 3]) {
        ParseView::Failed(
            spec_node_error(
                spec_node_or_last(tree, i + 3),
                "Expected statement separator"@,
                source,
            ),
        )
    } else {
        spec_parse_assignment_like_from(
            spec_splice(
                tree,
                i,
                i + 4,
                spec_adopt(tree[i + 1], result_type, seq![tree[i], tree[i + 2]]),
            ),
            i + 1,
            key_types,
            result_type,
            source,
        )
    }
}

/// Folds statements of the shape name, operator, value, separator into a
/// node of classification `result_type` with the name and the value as
/// its two children.
#[verifier::rlimit(40)]
pub fn parse_assignment_like(
    tree: &mut ParseTreeUnfinshed,
    key_ast_type: Vec<AST_Type>,
    result_type: AST_Type,
    source: &str,
) -> (r: ParseState)
    ensures
        final(tree)@.len() <= old(tree)@.len(),
        state_agrees(
            r,
            final(tree)@,
            spec_parse_assignment_like_from(old(tree)@, 0, key_ast_type@, result_type, source@),
        ),
{
    let ghost key = key_ast_type@;
    let names: Vec<AST_Type> = vec![AST_Type::Identifier];
    let values = rvalues();
    let separators: Vec<AST_Type> = vec![AST_Type::Unparsed(TokenType::STMT_SEP)];
    assert(names@ =~= seq![AST_Type::Identifier]);
    assert(separators@ =~= seq![AST_Type::Unparsed(TokenType::STMT_SEP)]);
    let expected: Vec<Vec<AST_Type>> = vec![names, key_ast_type, values, separators];
    let ghost sets = seq![
        seq![AST_Type::Identifier],
        key,
        spec_rvalues(),
        seq![AST_Type::Unparsed(TokenType::STMT_SEP)],
    ];
    assert(pattern_sets(expected@) =~= sets);
    let mut i: usize = 0;
    while i < tree.content.len()
        invariant
            tree@.len() <= old(tree)@.len(),
            key == key_ast_type@,
            pattern_sets(expected@) == sets,
            sets == seq![
                seq![AST_Type::Identifier],
                key,
                spec_rvalues(),
                seq![AST_Type::Unparsed(TokenType::STMT_SEP)],
            ],
            expected@.len() == 4,
            spec_parse_assignment_like_from(tree@, i as int, key, result_type, source@)
                == spec_parse_assignment_like_from(old(tree)@, 0, key, result_type, source@),
        decreases tree@.len() - i,
    {
        let res = tree.match_ast_pattern(i, expected.as_slice(), 1);
        proof {
            assert(sets[0] =~= seq![AST_Type::Identifier]);
            assert(sets[3] =~= seq![AST_Type::Unparsed(TokenType::STMT_SEP)]);
            assert(forall|t: AST_Type| sets[0].contains(t) <==> t == AST_Type::Identifier) by {
                assert(sets[0][0] == AST_Type::Identifier);
            }
            assert(forall|t: AST_Type|
                sets[3].contains(t) <==> t == AST_Type::Unparsed(TokenType::STMT_SEP)) by {
                assert(sets[3][0] == AST_Type::Unparsed(TokenType::STMT_SEP));
            }
        }
        match res {
            PatternMatchingRes::Matched => {
                assert(spec_position_matches(tree@, i as int, sets, 0));
                assert(spec_position_matches(tree@, i as int, sets, 1));
                assert(spec_position_matches(tree@, i as int, sets, 2));
                assert(spec_position_matches(tree@, i as int, sets, 3));
                let ghost before = tree@;
                let mut span = tree.drain(i, i + 4);
                let _ = span.pop();
                let value = span.pop();
                let mut root = span.pop();
                let name = span.pop();
                root.set_AST_Type(result_type);
                root.append_child(name);
                root.append_child(value);
                assert(root@ == spec_adopt(
                    before[i + 1],
                    result_type,
                    seq![before[i as int], before[i + 2]],
                )) by {
                    assert(root@.children =~= before[i + 1].children + seq![
                        before[i as int],
                        before[i + 2],
                    ]);
                }
                tree.insert(i, root);
                assert(tree@ =~= spec_splice(before, i as int, i + 4, root@));
            },
            PatternMatchingRes::FailedAt(num) => {
                assert(spec_fails_at(tree@, i as int, sets, 1, num as int));
                assert(num > 0 ==> spec_position_matches(
                    tree@,
                    i as int,
                    sets,
                    0,
                ));
                assert(num > 2 ==> spec_position_matches(
                    tree@,
                    i as int,
                    sets,
                    2,
                ));
                if num == 0 {
                    return ParseState::Error(
                        node_error(&tree.content[i], "Expected identifier", source),
                    );
                } else if num == 2 {
                    return ParseState::Error(
                        node_error(node_or_last(tree, i + 2), "Expected value", source),
                    );
                } else {
                    return ParseState::Error(
                        node_error(
                            node_or_last(tree, i + 3),
                            "Expected statement separator",
                            source,
                        ),
                    );
                }
            },
            PatternMatchingRes::Nomatch => {},
        }
        i += 1;
    }
    ParseState::Finished
}

// ---------------------------------------------------------------------
// Loops
// ---------------------------------------------------------------------
/// The fold of keyword, condition, body from position `i` on. The last two
/// nodes of the run are never taken for the keyword.
pub open spec fn spec_parse_ternary_stmt_like_while_from(
    tree: Seq<NodeView>,
    i: int,
    keyword_types: Seq<AST_Type>,
    left: Seq<AST_Type>,
    right: Seq<AST_Type>,
    result_type: AST_Type,
    source: Seq<char>,
    error_1: Seq<char>,
    error_2: Seq<char>,
) -> ParseView
    decreases tree.len() - i,
{
    if i < 0 || i + 2 >= tree.len() {
        ParseView::Finished(tree)
    } else if !keyword_types.contains(tree[i].ast_type) {
        spec_parse_ternary_stmt_like_while_from(
            tree,
            i + 1,
            keyword_types,
            left,
            right,
            result_type,
            source,
            error_1,
            error_2,
        )
    } else if !left.contains(tree[i + 1].ast_type) {
        ParseView::Failed(spec_node_error(tree[i], error_1, source))
    } else if !right.contains(tree[i + 2].ast_type) {
        ParseView::Failed(spec_node_error(tree[i], error_2, source))
    } else {
        spec_parse_ternary_stmt_like_while_from(
            spec_splice(
                tree,
                i,
                i + 3,
                spec_adopt(tree[i], result_type, seq![tree[i + 1], tree[i + 2]]),
            ),
            i,
            keyword_types,
            left,
            right,
            result_type,
            source,
            error_1,
            error_2,
        )
    }
}

/// Folds a keyword with the condition and the body behind it into a node
/// of classification `result_type` with two children.
#[verifier::rlimit(40)]
pub fn parse_ternary_stmt_like_while(
    tree: &mut ParseTreeUnfinshed,
    operator_token_types: &[AST_Type],
    left_ast_types: &[AST_Type],
    right_ast_types: &[AST_Type],
    result_type: AST_Type,
    source: &str,
    error_1: &str,
    error_2: &str,
) -> (r: ParseState)
    ensures
        final(tree)@.len() <= old(tree)@.len(),
        state_agrees(
            r,
            final(tree)@,
            spec_parse_ternary_stmt_like_while_from(
                old(tree)@,
                0,
                operator_token_types@,
                left_ast_types@,
                right_ast_types@,
                result_type,
                source@,
                error_1@,
                error_2@,
            ),
        ),
{
    let mut i: usize = 0;
    while tree.content.len() > 2 && i < tree.content.len() - 2
        invariant
            tree@.len() <= old(tree)@.len(),
            spec_parse_ternary_stmt_like_while_from(
                tree@,
                i as int,
                operator_token_types@,
                left_ast_types@,
                right_ast_types@,
                result_type,
                source@,
                error_1@,
                error_2@,
            ) == spec_parse_ternary_stmt_like_while_from(
                old(tree)@,
                0,
                operator_token_types@,
                left_ast_types@,
                right_ast_types@,
                result_type,
                source@,
                error_1@,
                error_2@,
            ),
        decreases tree@.len() - i,
    {
        if !tree.content[i].belongs_to_AST_type(operator_token_types) {
            i += 1;
        } else if !tree.content[i + 1].belongs_to_AST_type(left_ast_types) {
            return ParseState::Error(node_error(&tree.content[i], error_1, source));
        } else if !tree.content[i + 2].belongs_to_AST_type(right_ast_types) {
            return ParseState::Error(node_error(&tree.content[i], error_2, source));
        } else {
            let ghost before = tree@;
            let mut span = tree.drain(i, i + 3);
            let body = span.pop();
            let condition = span.pop();
            let mut root = span.pop();
            root.set_AST_Type(result_type);
            root.append_child(condition);
            root.append_child(body);
            assert(root@ == spec_adopt(
                before[i as int],
                result_type,
                seq![before[i + 1], before[i + 2]],
            )) by {
                assert(root@.children =~= before[i as int].children + seq![
                    before[i + 1],
                    before[i + 2],
                ]);
            }
            tree.insert(i, root);
            assert(tree@ =~= spec_splice(before, i as int, i + 3, root@));
        }
    }
    ParseState::Finished
}

// ---------------------------------------------------------------------
// Statement separators
// ---------------------------------------------------------------------
/// The absorption of statement separators from position `i` on. A
/// separator at the start of the run or behind a statement goes; one
/// behind any other node turns into a plain statement that adopts it.
pub open spec fn spec_parse_stmt_sep_from(tree: Seq<NodeView>, i: int) -> Seq<NodeView>
    decreases tree.len() - i,
{
    if i < 0 || i >= tree.len() {
        tree
    } else if !spec_is_stmt_sep(tree[i]) {
        spec_parse_stmt_sep_from(tree, i + 1)
    } else if i == 0 || tree[i - 1].ast_type is Stmt {
        spec_parse_stmt_sep_from(tree.remove(i), i)
    } else {
        spec_parse_stmt_sep_from(
            spec_splice(
                tree,
                i - 1,
                i + 1,
                spec_adopt(tree[i], AST_Type::Stmt(StmtType::Normal), seq![tree[i - 1]]),
            ),
            i,
        )
    }
}

/// Absorbs the statement separators of the run.
pub fn parse_stmt_sep(tree: &mut ParseTreeUnfinshed) -> (r: ParseState)
    ensures
        final(tree)@.len() <= old(tree)@.len(),
        r is Finished,
        final(tree)@ == spec_parse_stmt_sep_from(old(tree)@, 0),
{
    let mut i: usize = 0;
    while i < tree.content.len()
        invariant
            tree@.len() <= old(tree)@.len(),
            spec_parse_stmt_sep_from(tree@, i as int) == spec_parse_stmt_sep_from(old(tree)@, 0),
        decreases tree@.len() - i,
    {
        if tree.content[i].get_AST_Type() == AST_Type::Unparsed(TokenType::STMT_SEP) {
            if i == 0 || tree.content[i - 1].is_stmt() {
                tree.remove(i);
            } else {
                let ghost before = tree@;
                let mut span = tree.drain(i - 1, i + 1);
                let mut root = span.pop();
                let inner = span.pop();
                root.set_AST_Type(AST_Type::Stmt(StmtType::Normal));
                root.append_child(inner);
                assert(root@ == spec_adopt(
                    before[i as int],
                    AST_Type::Stmt(StmtType::Normal),
                    seq![before[i - 1]],
                )) by {
                    assert(root@.children =~= before[i as int].children + seq![before[i - 1]]);
                }
                tree.insert(i - 1, root);
                assert(tree@ =~= spec_splice(before, i - 1, i + 1, root@));
            }
        } else {
            i += 1;
        }
    }
    ParseState::Finished
}

// ---------------------------------------------------------------------
// Postfix operators
// ---------------------------------------------------------------------
/// The postfix fold from position `i` on: a token of `ops` directly
/// behind a node that `types` admits adopts that node.
pub open spec fn spec_parse_post_single_from(
    tree: Seq<NodeView>,
    i: int,
    types: Seq<AST_Type>,
    ops: Seq<TokenType>,
    result_type: AST_Type,
) -> Seq<NodeView>
    decreases tree.len() - i,
{
    if i < 0 || i + 1 >= tree.len() {
        tree
    } else if !types.contains(tree[i].ast_type) || !ops.contains(tree[i + 1].token.token_type) {
        spec_parse_post_single_from(tree, i + 1, types, ops, result_type)
    } else {
        spec_parse_post_single_from(
            spec_splice(tree, i, i + 2, spec_adopt(tree[i + 1], result_type, seq![tree[i]])),
            i + 1,
            types,
            ops,
            result_type,
        )
    }
}

/// Folds a node and the postfix token behind it: the token's node takes
/// the classification `result_type` and adopts the node before it.
pub fn parse_post_single(
    tree: &mut ParseTreeUnfinshed,
    ast_type: &[AST_Type],
    operator_token_type: &[TokenType],
    result_type: AST_Type,
) -> (r: ParseState)
    ensures
        final(tree)@.len() <= old(tree)@.len(),
        r is Finished,
        final(tree)@ == spec_parse_post_single_from(
            old(tree)@,
            0,
            ast_type@,
            operator_token_type@,
            result_type,
        ),
{
    let mut i: usize = 0;
    while tree.content.len() > 1 && i < tree.content.len() - 1
        invariant
            tree@.len() <= old(tree)@.len(),
            spec_parse_post_single_from(
                tree@,
                i as int,
                ast_type@,
                operator_token_type@,
                result_type,
            ) == spec_parse_post_single_from(
                old(tree)@,
                0,
                ast_type@,
                operator_token_type@,
                result_type,
            ),
        decreases tree@.len() - i,
    {
        if tree.content[i].belongs_to_AST_type(ast_type) && tree.content[i
            + 1].belongs_to_Token_type(operator_token_type) {
            let ghost before = tree@;
            let mut span = tree.drain(i, i + 2);
            let mut root = span.pop();
            let inner = span.pop();
            root.set_AST_Type(result_type);
            root.append_child(inner);
            assert(root@.children =~= before[i + 1].children + seq![before[i as int]]);
            tree.insert(i, root);
            assert(tree@ =~= spec_splice(before, i as int, i + 2, root@));
        }
        i += 1;
    }
    ParseState::Finished
}

// ---------------------------------------------------------------------
// Compound statements
// ---------------------------------------------------------------------
/// What a statement brings into a compound statement: its own statements
/// if it is a compound statement itself, else the statement.
pub open spec fn spec_statements_of(node: NodeView) -> Seq<NodeView> {
    if node.ast_type == AST_Type::Stmt(StmtType::Compound) {
        node.children
    } else {
        seq![node]
    }
}

/// The assembly of compound statements from position `i` on, where `open`
/// is the position of the compound statement being filled, or negative if
/// none is. Statements in a row gather in one compound statement; any
/// other node stays where it is and ends the row.
pub open spec fn spec_parse_compound_from(tree: Seq<NodeView>, i: int, open: int) -> Seq<NodeView>
    decreases tree.len() - i,
{
    if i < 0 || i >= tree.len() {
        tree
    } else if !(tree[i].ast_type is Stmt) {
        spec_parse_compound_from(tree, i + 1, -1)
    } else if 0 <= open < i {
        spec_parse_compound_from(
            tree.remove(i).update(
                open,
                spec_adopt(tree[open], tree[open].ast_type, spec_statements_of(tree[i])),
            ),
            i,
            open,
        )
    } else {
        spec_parse_compound_from(
            tree.update(
                i,
                spec_adopt(
                    spec_leaf(AST_Type::Stmt(StmtType::Compound), spec_dummy_token()),
                    AST_Type::Stmt(StmtType::Compound),
                    spec_statements_of(tree[i]),
                ),
            ),
            i + 1,
            i,
        )
    }
}

/// What a statement brings into a compound statement.
fn statements_of(node: AST_Node) -> (r: Vec<AST_Node>)
    ensures
        views(r@) == spec_statements_of(node@),
{
    if node.is_compound_stmt() {
        node.children
    } else {
        let r = vec![node];
        assert(views(r@) =~= seq![node@]);
        r
    }
}

/// Gathers the statements of the run into compound statements.
#[verifier::rlimit(40)]
pub fn parse_stmt_into_compound_stmt(tree: &mut ParseTreeUnfinshed) -> (r: ParseState)
    ensures
        final(tree)@.len() <= old(tree)@.len(),
        r is Finished,
        final(tree)@ == spec_parse_compound_from(old(tree)@, 0, -1),
{
    let mut i: usize = 0;
    let mut open: Option<usize> = None;
    while i < tree.content.len()
        invariant
            tree@.len() <= old(tree)@.len(),
            open is Some ==> open->Some_0 < i,
            spec_parse_compound_from(
                tree@,
                i as int,
                if open is Some {
                    open->Some_0 as int
                } else {
                    -1
                },
            ) == spec_parse_compound_from(old(tree)@, 0, -1),
        decreases tree@.len() - i,
    {
        if !tree.content[i].is_stmt() {
            i += 1;
            open = None;
        } else {
            let ghost before = tree@;
            match open {
                Some(at) => {
                    let node = tree.take(i);
                    let mut compound = tree.take(at);
                    let kind = compound.get_AST_Type();
                    compound.set_AST_Type(kind);
                    compound.append_children(statements_of(node));
                    tree.insert(at, compound);
                    assert(tree@ =~= before.remove(i as int).update(
                        at as int,
                        spec_adopt(
                            before[at as int],
                            before[at as int].ast_type,
                            spec_statements_of(before[i as int]),
                        ),
                    ));
                },
                None => {
                    let node = tree.take(i);
                    let mut compound = AST_Node::dummy_node(AST_Type::Stmt(StmtType::Compound));
                    compound.append_children(statements_of(node));
                    tree.insert(i, compound);
                    assert(tree@ =~= before.update(
                        i as int,
                        spec_adopt(
                            spec_leaf(AST_Type::Stmt(StmtType::Compound), spec_dummy_token()),
                            AST_Type::Stmt(StmtType::Compound),
                            spec_statements_of(before[i as int]),
                        ),
                    ));
                    open = Some(i);
                    i += 1;
                },
            }
        }
    }
    ParseState::Finished
}

// ---------------------------------------------------------------------
// Tuples
// ---------------------------------------------------------------------
/// Whether a node is a comma that no pass has folded yet.
pub open spec fn spec_is_comma(n: NodeView) -> bool {
    n.ast_type == AST_Type::Unparsed(TokenType::COMMA)
}

/// The commas of one tuple stand two places apart, the first at `i`. This
/// counts them from the `count`-th on and checks that a value stands on
/// either side of each. A value missing before a comma is reported at the
/// node before the comma; a value missing behind it at the node behind it;
/// where there is no such node, at the first node of the run.
pub open spec fn spec_comma_run(
    tree: Seq<NodeView>,
    i: int,
    count: int,
    expected: Seq<AST_Type>,
    source: Seq<char>,
) -> Result<int, ErrorView>
    decreases tree.len() - i - 2 * count,
{
    let p = i + 2 * count;
    if p < 0 || count < 0 || p >= tree.len() || !spec_is_comma(tree[p]) {
        Ok(count)
    } else if p == 0 || !expected.contains(tree[p - 1].ast_type) {
        Err(
            spec_node_error(
                tree[if p == 0 {
                    0
                } else {
                    p - 1
                }],
                "Expected value before comma"@,
                source,
            ),
        )
    } else if p == tree.len() - 1 || !expected.contains(tree[p + 1].ast_type) {
        Err(
            spec_node_error(
                tree[if p == tree.len() - 1 {
                    0
                } else {
                    p + 1
                }],
                "Expected value after comma"@,
                source,
            ),
        )
    } else {
        spec_comma_run(tree, i, count + 1, expected, source)
    }
}

/// The values that `count` commas, the first at `i`, separate.
pub open spec fn spec_comma_operands(tree: Seq<NodeView>, i: int, count: int) -> Seq<NodeView> {
    Seq::new((count + 1) as nat, |j: int| tree[i - 1 + 2 * j])
}

/// The tuple fold from position `i` on: a run of values separated by
/// commas becomes one node, the first comma, that adopts the values.
pub open spec fn spec_parse_comma_from(
    tree: Seq<NodeView>,
    i: int,
    expected: Seq<AST_Type>,
    result_type: AST_Type,
    source: Seq<char>,
) -> ParseView
    decreases tree.len() - i,
{
    if i < 0 || i >= tree.len() {
        ParseView::Finished(tree)
    } else if !spec_is_comma(tree[i]) {
        spec_parse_comma_from(tree, i + 1, expected, result_type, source)
    } else {
        let run = spec_comma_run(tree, i, 0, expected, source);
        let count = run->Ok_0;
        let folded = spec_splice(
            tree,
            i - 1,
            i + 2 * count,
            spec_adopt(tree[i], result_type, spec_comma_operands(tree, i, count)),
        );
        if run is Err {
            ParseView::Failed(run->Err_0)
        } else if i < folded.len() < tree.len() {
            spec_parse_comma_from(folded, i + 1, expected, result_type, source)
        } else {
            ParseView::Finished(folded)
        }
    }
}

/// A run of commas that is in order holds at least one comma, has a value
/// before the first and ends inside the run of nodes.
pub proof fn lemma_comma_run_bounds(
    tree: Seq<NodeView>,
    i: int,
    count: int,
    expected: Seq<AST_Type>,
    source: Seq<char>,
)
    requires
        0 <= i < tree.len(),
        spec_is_comma(tree[i]),
        0 <= count,
        count > 0 ==> i >= 1 && i + 2 * count <= tree.len(),
    ensures
        spec_comma_run(tree, i, count, expected, source) matches Ok(n) ==> 1 <= i && 1 <= n && i
            + 2 * n <= tree.len() && count <= n,
    decreases tree.len() - i - 2 * count,
{
    let p = i + 2 * count;
    if p >= tree.len() || !spec_is_comma(tree[p]) {
    } else if p == 0 || !expected.contains(tree[p - 1].ast_type) {
    } else if p == tree.len() - 1 || !expected.contains(tree[p + 1].ast_type) {
    } else {
        lemma_comma_run_bounds(tree, i, count + 1, expected, source);
    }
}

/// Folds runs of values separated by commas into tuples.
#[verifier::rlimit(40)]
pub fn parse_comma(
    tree: &mut ParseTreeUnfinshed,
    expected_types: &[AST_Type],
    result_type: AST_Type,
    source: &str,
) -> (r: ParseState)
    ensures
        final(tree)@.len() <= old(tree)@.len(),
        state_agrees(
            r,
            final(tree)@,
            spec_parse_comma_from(old(tree)@, 0, expected_types@, result_type, source@),
        ),
{
    let mut i: usize = 0;
    while i < tree.content.len()
        invariant
            tree@.len() <= old(tree)@.len(),
            spec_parse_comma_from(tree@, i as int, expected_types@, result_type, source@)
                == spec_parse_comma_from(old(tree)@, 0, expected_types@, result_type, source@),
        decreases tree@.len() + 1 - i,
    {
        if tree.content[i].get_AST_Type() != AST_Type::Unparsed(TokenType::COMMA) {
            i += 1;
        } else {
            let ghost before = tree@;
            // Count the commas of the run and check their neighbours.
            let mut count: usize = 0;
            let mut p: usize = i;
            let mut counting = true;
            while counting
                invariant
                    tree@ == before,
                    before.len() <= old(tree)@.len(),
                    i < before.len(),
                    spec_is_comma(before[i as int]),
                    spec_parse_comma_from(before, i as int, expected_types@, result_type, source@)
                        == spec_parse_comma_from(
                        old(tree)@,
                        0,
                        expected_types@,
                        result_type,
                        source@,
                    ),
                    p == i + 2 * count,
                    p <= before.len(),
                    count > 0 ==> i >= 1,
                    spec_comma_run(before, i as int, count as int, expected_types@, source@)
                        == spec_comma_run(before, i as int, 0, expected_types@, source@),
                    !counting ==> spec_comma_run(before, i as int, 0, expected_types@, source@)
                        == Ok::<int, ErrorView>(count as int),
                decreases before.len() - p, counting as int,
            {
                if p >= tree.content.len() || tree.content[p].get_AST_Type() != AST_Type::Unparsed(
                    TokenType::COMMA,
                ) {
                    counting = false;
                } else if p == 0 || !tree.content[p - 1].belongs_to_AST_type(expected_types) {
                    let at: usize = if p == 0 {
                        0
                    } else {
                        p - 1
                    };
                    return ParseState::Error(
                        node_error(&tree.content[at], "Expected value before comma", source),
                    );
                } else if p == tree.content.len() - 1 || !tree.content[p + 1].belongs_to_AST_type(
                    expected_types,
                ) {
                    let at: usize = if p == tree.content.len() - 1 {
                        0
                    } else {
                        p + 1
                    };
                    return ParseState::Error(
                        node_error(&tree.content[at], "Expected value after comma", source),
                    );
                } else {
                    count += 1;
                    p += 2;
                }
            }
            proof {
                lemma_comma_run_bounds(before, i as int, 0, expected_types@, source@);
            }
            // Take the run out: values and commas in turn.
            let ghost operands = spec_comma_operands(before, i as int, count as int);
            let mut span = tree.drain(i - 1, p);
            let ghost run = before.subrange(i - 1, p as int);
            let mut later: Vec<AST_Node> = Vec::new();
            let mut k: usize = count;
            while k > 1
                invariant
                    1 <= k <= count,
                    run.len() == 2 * count + 1,
                    span@ == run.subrange(0, 2 * k + 1),
                    later@.len() == count - k,
                    forall|j: int|
                        0 <= j < later@.len() ==> (#[trigger] later@[j])@ == run[2 * (count - j)],
                decreases k,
            {
                let value = span.pop();
                let _ = span.pop();
                later.push(value);
                k -= 1;
                assert(span@ =~= run.subrange(0, 2 * k + 1));
            }
            let second = span.pop();
            let mut root = span.pop();
            let first = span.pop();
            root.set_AST_Type(result_type);
            root.append_child(first);
            root.append_child(second);
            let ghost base = before[i as int].children;
            assert(root@.children =~= base + operands.subrange(0, 2));
            let mut m: usize = 2;
            while later.len() > 0
                invariant
                    2 <= m <= count + 1,
                    i + 2 * count <= usize::MAX,
                    i < before.len(),
                    operands.len() == count + 1,
                    later@.len() == count + 1 - m,
                    forall|j: int|
                        0 <= j < later@.len() ==> (#[trigger] later@[j])@ == operands[count - j],
                    root@.ast_type == result_type,
                    root@.token == before[i as int].token,
                    root@.children == base + operands.subrange(0, m as int),
                decreases later@.len(),
            {
                let value = later.pop().unwrap();
                root.append_child(value);
                assert(base + operands.subrange(0, m + 1) =~= (base + operands.subrange(
                    0,
                    m as int,
                )).push(operands[m as int]));
                m += 1;
            }
            assert(operands.subrange(0, m as int) =~= operands);
            tree.insert(i - 1, root);
            assert(tree@ =~= spec_splice(before, i - 1, p as int, root@));
            assert(tree@.len() == before.len() - 2 * count);
            i += 1;
        }
    }
    ParseState::Finished
}

// ---------------------------------------------------------------------
// Conditionals
// ---------------------------------------------------------------------
/// The fold of conditionals from position `i` on. Where `absorbing` is
/// false, an `if` token there owes a condition and a braced body and adopts
/// both. Where it is true, the node at `i` is a conditional that takes in
/// the clauses behind it: `else` with a braced body closes it; `else if`
/// with condition and braced body is taken in and more may follow.
pub open spec fn spec_parse_if_from(
    tree: Seq<NodeView>,
    i: int,
    absorbing: bool,
    source: Seq<char>,
) -> ParseView
    decreases tree.len() - i,
{
    let braced = AST_Type::Stmt(StmtType::Braced);
    let keyword = AST_Type::Unparsed(TokenType::IF);
    if i < 0 || i >= tree.len() {
        ParseView::Finished(tree)
    } else if !absorbing {
        if tree[i].ast_type != keyword {
            spec_parse_if_from(tree, i + 1, false, source)
        } else if i + 1 >= tree.len() || !spec_rvalues().contains(tree[i + 1].ast_type) {
            ParseView::Failed(
                spec_node_error(spec_node_or_last(tree, i + 1), "Expected rvalues"@, source),
            )
        } else if i + 2 >= tree.len() || tree[i + 2].ast_type != braced {
            ParseView::Failed(
                spec_node_error(
                    spec_node_or_last(tree, i + 2),
                    "Expected Braced Statment"@,
                    source,
                ),
            )
        } else {
            spec_parse_if_from(
                spec_splice(
                    tree,
                    i,
                    i + 3,
                    spec_adopt(
                        tree[i],
                        AST_Type::Stmt(StmtType::If),
                        seq![tree[i + 1], tree[i + 2]],
                    ),
                ),
                i,
                true,
                source,
            )
        }
    } else if i + 1 >= tree.len() || tree[i + 1].ast_type != AST_Type::Unparsed(TokenType::ELSE) {
        spec_parse_if_from(tree, i + 1, false, source)
    } else if i + 2 >= tree.len() || (tree[i + 2].ast_type != braced && tree[i + 2].ast_type
        != keyword) {
        ParseView::Failed(
            spec_node_error(
                spec_node_or_last(tree, i + 2),
                "Expected Braced Statment or if after else"@,
                source,
            ),
        )
    } else if tree[i + 2].ast_type == braced {
        spec_parse_if_from(
            spec_splice(
                tree,
                i,
                i + 3,
                spec_adopt(
                    tree[i],
                    tree[i].ast_type,
                    seq![
                        spec_adopt(tree[i + 1], AST_Type::Stmt(StmtType::Else), seq![tree[i + 2]]),
                    ],
                ),
            ),
            i + 1,
            false,
            source,
        )
    } else if i + 3 >= tree.len() || !spec_rvalues().contains(tree[i + 3].ast_type) {
        ParseView::Failed(
            spec_node_error(spec_node_or_last(tree, i + 3), "Expected rvalues"@, source),
        )
    } else if i + 4 >= tree.len() || tree[i + 4].ast_type != braced {
        ParseView::Failed(
            spec_node_error(spec_node_or_last(tree, i + 4), "Expected Braced Statment"@, source),
        )
    } else {
        spec_parse_if_from(
            spec_splice(
                tree,
                i,
                i + 5,
                spec_adopt(
                    tree[i],
                    tree[i].ast_type,
                    seq![
                        spec_adopt(
                            tree[i + 2],
                            AST_Type::Stmt(StmtType::Elseif),
                            seq![tree[i + 3], tree[i + 4]],
                        ),
                    ],
                ),
            ),
            i,
            true,
            source,
        )
    }
}

/// Whether the node at `at` exists and has the classification `kind`.
fn node_is(tree: &ParseTreeUnfinshed, at: usize, kind: AST_Type) -> (r: bool)
    ensures
        r == (at < tree@.len() && tree@[at as int].ast_type == kind),
{
    at < tree.content.len() && tree.content[at].get_AST_Type() == kind
}

/// Whether the node at `at` exists and has a value.
fn node_is_rvalue(tree: &ParseTreeUnfinshed, at: usize) -> (r: bool)
    ensures
        r == (at < tree@.len() && spec_rvalues().contains(tree@[at as int].ast_type)),
{
    let values = rvalues();
    at < tree.content.len() && tree.content[at].belongs_to_AST_type(values.as_slice())
}

/// Lets the node at `i` adopt the `n` nodes behind it and take the
/// classification `kind`.
fn fold_following(tree: &mut ParseTreeUnfinshed, i: usize, n: usize, kind: AST_Type)
    requires
        i + n < old(tree)@.len(),
    ensures
        final(tree)@ == spec_splice(
            old(tree)@,
            i as int,
            i + n + 1,
            spec_adopt(
                old(tree)@[i as int],
                kind,
                old(tree)@.subrange(i + 1, i + n + 1),
            ),
        ),
{
    let ghost before = tree@;
    let _ = tree.len();
    let mut span = tree.drain(i + 1, i + n + 1);
    let mut root = tree.take(i);
    root.set_AST_Type(kind);
    root.append_children(span.content);
    tree.insert(i, root);
    assert(tree@ =~= spec_splice(before, i as int, i + n + 1, root@));
}

/// Lets the conditional at `i` take in the `else` behind it with its
/// braced body.
fn absorb_else(tree: &mut ParseTreeUnfinshed, i: usize)
    requires
        i + 2 < old(tree)@.len(),
    ensures
        final(tree)@ == spec_splice(
            old(tree)@,
            i as int,
            i + 3,
            spec_adopt(
                old(tree)@[i as int],
                old(tree)@[i as int].ast_type,
                seq![
                    spec_adopt(
                        old(tree)@[i + 1],
                        AST_Type::Stmt(StmtType::Else),
                        seq![old(tree)@[i + 2]],
                    ),
                ],
            ),
        ),
{
    let ghost before = tree@;
    let _ = tree.len();
    fold_following(tree, i + 1, 1, AST_Type::Stmt(StmtType::Else));
    let ghost middle = tree@;
    assert(middle.len() == before.len() - 1);
    let kind = tree.content[i].get_AST_Type();
    fold_following(tree, i, 1, kind);
    proof {
        assert(before.subrange(i + 2, i + 3) =~= seq![before[i + 2]]);
        assert(middle.subrange(i + 1, i + 2) =~= seq![middle[i + 1]]);
        assert(tree@ =~= spec_splice(
            before,
            i as int,
            i + 3,
            spec_adopt(
                before[i as int],
                before[i as int].ast_type,
                seq![
                    spec_adopt(before[i + 1], AST_Type::Stmt(StmtType::Else), seq![before[i + 2]]),
                ],
            ),
        ));
    }
}

/// Lets the conditional at `i` take in the `else if` behind it with its
/// condition and braced body. The `else` token goes.
fn absorb_else_if(tree: &mut ParseTreeUnfinshed, i: usize)
    requires
        i + 4 < old(tree)@.len(),
    ensures
        final(tree)@ == spec_splice(
            old(tree)@,
            i as int,
            i + 5,
            spec_adopt(
                old(tree)@[i as int],
                old(tree)@[i as int].ast_type,
                seq![
                    spec_adopt(
                        old(tree)@[i + 2],
                        AST_Type::Stmt(StmtType::Elseif),
                        seq![old(tree)@[i + 3], old(tree)@[i + 4]],
                    ),
                ],
            ),
        ),
{
    let ghost before = tree@;
    let _ = tree.len();
    tree.remove(i + 1);
    let ghost first = tree@;
    fold_following(tree, i + 1, 2, AST_Type::Stmt(StmtType::Elseif));
    let ghost middle = tree@;
    assert(middle.len() == before.len() - 3);
    let kind = tree.content[i].get_AST_Type();
    fold_following(tree, i, 1, kind);
    proof {
        assert(first.subrange(i + 2, i + 4) =~= seq![before[i + 3], before[i + 4]]);
        assert(middle.subrange(i + 1, i + 2) =~= seq![middle[i + 1]]);
        assert(tree@ =~= spec_splice(
            before,
            i as int,
            i + 5,
            spec_adopt(
                before[i as int],
                before[i as int].ast_type,
                seq![
                    spec_adopt(
                        before[i + 2],
                        AST_Type::Stmt(StmtType::Elseif),
                        seq![before[i + 3], before[i + 4]],
                    ),
                ],
            ),
        ));
    }
}

/// Lets the `if` at `i` adopt its condition and its braced body.
fn fold_if(tree: &mut ParseTreeUnfinshed, i: usize)
    requires
        i + 2 < old(tree)@.len(),
    ensures
        final(tree)@ == spec_splice(
            old(tree)@,
            i as int,
            i + 3,
            spec_adopt(
                old(tree)@[i as int],
                AST_Type::Stmt(StmtType::If),
                seq![old(tree)@[i + 1], old(tree)@[i + 2]],
            ),
        ),
{
    let ghost before = tree@;
    fold_following(tree, i, 2, AST_Type::Stmt(StmtType::If));
    assert(before.subrange(i + 1, i + 3) =~= seq![before[i + 1], before[i + 2]]);
}

/// Folds `if` with its condition and body, and takes the `else if` and
/// `else` clauses that follow in as further children of the conditional.
#[verifier::rlimit(40)]
pub fn parse_if(tree: &mut ParseTreeUnfinshed, source: &str) -> (r: ParseState)
    ensures
        final(tree)@.len() <= old(tree)@.len(),
        state_agrees(r, final(tree)@, spec_parse_if_from(old(tree)@, 0, false, source@)),
{
    let braced = AST_Type::Stmt(StmtType::Braced);
    let keyword = AST_Type::Unparsed(TokenType::IF);
    let mut i: usize = 0;
    let mut absorbing = false;
    while i < tree.content.len()
        invariant
            tree@.len() <= old(tree)@.len(),
            braced == AST_Type::Stmt(StmtType::Braced),
            keyword == AST_Type::Unparsed(TokenType::IF),
            spec_parse_if_from(tree@, i as int, absorbing, source@) == spec_parse_if_from(
                old(tree)@,
                0,
                false,
                source@,
            ),
        decreases tree@.len() - i,
    {
        let len = tree.content.len();
        if !absorbing {
            if tree.content[i].get_AST_Type() != keyword {
                i += 1;
            } else if len - i <= 1 || !node_is_rvalue(tree, i + 1) {
                return ParseState::Error(
                    node_error(node_or_last(tree, i + 1), "Expected rvalues", source),
                );
            } else if len - i <= 2 || !node_is(tree, i + 2, braced) {
                return ParseState::Error(
                    node_error(node_or_last(tree, i + 2), "Expected Braced Statment", source),
                );
            } else {
                fold_if(tree, i);
                absorbing = true;
            }
        } else if len - i <= 1 || !node_is(tree, i + 1, AST_Type::Unparsed(TokenType::ELSE)) {
            i += 1;
            absorbing = false;
        } else if len - i <= 2 || (!node_is(tree, i + 2, braced) && !node_is(
            tree,
            i + 2,
            keyword,
        )) {
            return ParseState::Error(
                node_error(
                    node_or_last(tree, i + 2),
                    "Expected Braced Statment or if after else",
                    source,
                ),
            );
        } else if node_is(tree, i + 2, braced) {
            absorb_else(tree, i);
            i += 1;
            absorbing = false;
        } else if len - i <= 3 || !node_is_rvalue(tree, i + 3) {
            return ParseState::Error(
                node_error(node_or_last(tree, i + 3), "Expected rvalues", source),
            );
        } else if len - i <= 4 || !node_is(tree, i + 4, braced) {
            return ParseState::Error(
                node_error(node_or_last(tree, i + 4), "Expected Braced Statment", source),
            );
        } else {
            absorb_else_if(tree, i);
        }
    }
    ParseState::Finished
}

// ---------------------------------------------------------------------
// Delimited regions
// ---------------------------------------------------------------------
/// What is parsed on its own between the parentheses at `start` and `end`:
/// the nodes between them.
pub open spec fn spec_paren_region(tree: Seq<NodeView>, start: int, end: int) -> Seq<NodeView> {
    tree.subrange(start + 1, end)
}

/// What is parsed on its own between the braces at `start` and `end`: the
/// nodes between them and, unless there are none, the closing brace in the
/// role of a statement separator, so that it ends the last statement.
pub open spec fn spec_brace_region(tree: Seq<NodeView>, start: int, end: int) -> Seq<NodeView> {
    if end > start + 1 {
        tree.subrange(start + 1, end).push(
            NodeView { ast_type: AST_Type::Unparsed(TokenType::STMT_SEP), ..tree[end] },
        )
    } else {
        Seq::empty()
    }
}

/// The run that an outcome leaves behind.
pub open spec fn spec_tree_of(outcome: ParseView) -> Seq<NodeView> {
    match outcome {
        ParseView::Finished(t) => t,
        ParseView::Unfinished(t) => t,
        ParseView::Failed(_) => Seq::empty(),
    }
}

/// The classification of a folded region.
pub open spec fn spec_region_type(braces: bool) -> AST_Type {
    if braces {
        AST_Type::Stmt(StmtType::Braced)
    } else {
        AST_Type::Expr(ExprType::Paren)
    }
}

/// The diagnostic for a run that the passes leave with more than one
/// node: a parse error at the second node.
pub open spec fn spec_leftover_error(tree: Seq<NodeView>, source: Seq<char>) -> ErrorView {
    ErrorView {
        error_type: ErrorType::ParseErr,
        ..spec_node_error(tree[1], "Expected the end of the statement"@, source)
    }
}

/// How a parse ends once every pass has run: it is finished if at most
/// one node is left; a second node is a parse error.
pub open spec fn spec_is_finished(tree: Seq<NodeView>, source: Seq<char>) -> ParseView {
    if tree.len() <= 1 {
        ParseView::Finished(tree)
    } else {
        ParseView::Failed(spec_leftover_error(tree, source))
    }
}

/// The valid-after set of the unary minus: it is a prefix at the start of
/// a statement and behind an operator.
pub open spec fn spec_valid_before_minus() -> Seq<AST_Type> {
    spec_all_stmt().push(AST_Type::Unparsed(TokenType::STMT_SEP)) + spec_copulative()
}

/// The valid-after set of `var`: it starts a statement.
pub open spec fn spec_valid_before_var() -> Seq<AST_Type> {
    spec_all_stmt().push(AST_Type::Unparsed(TokenType::STMT_SEP))
}

// ---------------------------------------------------------------------
// Functions
// ---------------------------------------------------------------------
/// The fold of function definitions from position `i` on: `fn` owes a
/// name, parenthesised parameters and a braced body, and adopts the three.
pub open spec fn spec_parse_function_definition_from(
    tree: Seq<NodeView>,
    i: int,
    source: Seq<char>,
) -> ParseView
    decreases tree.len() - i,
{
    if i < 0 || i >= tree.len() {
        ParseView::Finished(tree)
    } else if tree[i].ast_type != AST_Type::Unparsed(TokenType::FN) {
        spec_parse_function_definition_from(tree, i + 1, source)
    } else if i + 1 >= tree.len() || tree[i + 1].ast_type != AST_Type::Identifier {
        ParseView::Failed(
            spec_node_error(spec_node_or_last(tree, i + 1), "Expected function name"@, source),
        )
    } else if i + 2 >= tree.len() || tree[i + 2].ast_type != AST_Type::Expr(ExprType::Paren) {
        ParseView::Failed(
            spec_node_error(spec_node_or_last(tree, i + 2), "Expected parameters"@, source),
        )
    } else if i + 3 >= tree.len() || tree[i + 3].ast_type != AST_Type::Stmt(StmtType::Braced) {
        ParseView::Failed(
            spec_node_error(spec_node_or_last(tree, i + 3), "Expected Braced Statment"@, source),
        )
    } else {
        spec_parse_function_definition_from(
            spec_splice(
                tree,
                i,
                i + 4,
                spec_adopt(
                    tree[i],
                    AST_Type::Stmt(StmtType::FunctionDef),
                    tree.subrange(i + 1, i + 4),
                ),
            ),
            i + 1,
            source,
        )
    }
}

/// Folds `fn` with the name, the parameters and the body behind it into
/// a function definition with these three children.
pub fn parse_function_definition(tree: &mut ParseTreeUnfinshed, source: &str) -> (r: ParseState)
    ensures
        final(tree)@.len() <= old(tree)@.len(),
        state_agrees(
            r,
            final(tree)@,
            spec_parse_function_definition_from(old(tree)@, 0, source@),
        ),
{
    let mut i: usize = 0;
    while i < tree.content.len()
        invariant
            tree@.len() <= old(tree)@.len(),
            spec_parse_function_definition_from(tree@, i as int, source@)
                == spec_parse_function_definition_from(old(tree)@, 0, source@),
        decreases tree@.len() - i,
    {
        let len = tree.content.len();
        if tree.content[i].get_AST_Type() != AST_Type::Unparsed(TokenType::FN) {
            i += 1;
        } else if len - i <= 1 || !node_is(tree, i + 1, AST_Type::Identifier) {
            return ParseState::Error(
                node_error(node_or_last(tree, i + 1), "Expected function name", source),
            );
        } else if len - i <= 2 || !node_is(tree, i + 2, AST_Type::Expr(ExprType::Paren)) {
            return ParseState::Error(
                node_error(node_or_last(tree, i + 2), "Expected parameters", source),
            );
        } else if len - i <= 3 || !node_is(tree, i + 3, AST_Type::Stmt(StmtType::Braced)) {
            return ParseState::Error(
                node_error(node_or_last(tree, i + 3), "Expected Braced Statment", source),
            );
        } else {
            fold_following(tree, i, 3, AST_Type::Stmt(StmtType::FunctionDef));
            i += 1;
        }
    }
    ParseState::Finished
}

/// Whether a node can name the function of a call: a name, or the
/// keyword `print`.
pub open spec fn spec_is_callee(n: NodeView) -> bool {
    n.ast_type == AST_Type::Identifier || n.ast_type == AST_Type::Unparsed(TokenType::PRINT)
}

/// The fold of calls from position `i` on: a callee with a parenthesised
/// expression directly behind it is a call and adopts its arguments.
pub open spec fn spec_parse_function_call_from(tree: Seq<NodeView>, i: int) -> Seq<NodeView>
    decreases tree.len() - i,
{
    if i < 0 || i + 1 >= tree.len() {
        tree
    } else if spec_is_callee(tree[i]) && tree[i + 1].ast_type == AST_Type::Expr(ExprType::Paren) {
        spec_parse_function_call_from(
            spec_splice(
                tree,
                i,
                i + 2,
                spec_adopt(tree[i], AST_Type::Expr(ExprType::Function), seq![tree[i + 1]]),
            ),
            i + 1,
        )
    } else {
        spec_parse_function_call_from(tree, i + 1)
    }
}

/// Folds each callee that has a parenthesised expression directly behind
/// it into a call.
pub fn parse_function_call(tree: &mut ParseTreeUnfinshed) -> (r: ParseState)
    ensures
        final(tree)@.len() <= old(tree)@.len(),
        r is Finished,
        final(tree)@ == spec_parse_function_call_from(old(tree)@, 0),
{
    let mut i: usize = 0;
    while tree.content.len() > 1 && i < tree.content.len() - 1
        invariant
            tree@.len() <= old(tree)@.len(),
            spec_parse_function_call_from(tree@, i as int) == spec_parse_function_call_from(
                old(tree)@,
                0,
            ),
        decreases tree@.len() - i,
    {
        if (node_is(tree, i, AST_Type::Identifier) || node_is(
            tree,
            i,
            AST_Type::Unparsed(TokenType::PRINT),
        )) && node_is(tree, i + 1, AST_Type::Expr(ExprType::Paren)) {
            let ghost before = tree@;
            fold_following(tree, i, 1, AST_Type::Expr(ExprType::Function));
            assert(before.subrange(i + 1, i + 2) =~= seq![before[i + 1]]);
        }
        i += 1;
    }
    ParseState::Finished
}

/// The number of passes that follow the resolution of delimiters.
pub const PASS_COUNT: u8 = 18;

/// The pass with the number `stage`, in the order of precedence:
/// function definitions; calls; unary minus; the binary operators,
/// tightest first; the assignments; the declaration; tuples; loops;
/// conditionals; separators; compound statements.
pub open spec fn spec_pass(tree: Seq<NodeView>, stage: int, source: Seq<char>) -> ParseView {
    let expr = AST_Type::Expr(ExprType::Normal);
    if stage == 0 {
        spec_parse_function_definition_from(tree, 0, source)
    } else if stage == 1 {
        ParseView::Finished(spec_parse_function_call_from(tree, 0))
    } else if stage == 2 {
        spec_parse_prefix_from(
            tree,
            0,
            seq![AST_Type::Unparsed(TokenType::MINUS)],
            seq![expr, AST_Type::Expr(ExprType::Paren), AST_Type::Identifier],
            spec_valid_before_minus(),
            AST_Type::Expr(ExprType::Negated),
            source,
        )
    } else if stage == 3 {
        spec_parse_ternary_left_assoc(
            tree,
            spec_rvalues(),
            seq![TokenType::STAR, TokenType::SLASH, TokenType::PERCENT],
            spec_rvalues(),
            expr,
            source,
        )
    } else if stage == 4 {
        spec_parse_ternary_left_assoc(
            tree,
            spec_rvalues(),
            seq![TokenType::PLUS, TokenType::MINUS],
            spec_rvalues(),
            expr,
            source,
        )
    } else if stage == 5 {
        spec_parse_ternary_left_assoc(
            tree,
            spec_rvalues(),
            seq![
                TokenType::GREATER,
                TokenType::GREATER_EQUAL,
                TokenType::LESS,
                TokenType::LESS_EQUAL,
            ],
            spec_rvalues(),
            expr,
            source,
        )
    } else if stage == 6 {
        spec_parse_ternary_left_assoc(
            tree,
            spec_rvalues(),
            seq![TokenType::EQUAL_EQUAL, TokenType::BANG_EQUAL],
            spec_rvalues(),
            expr,
            source,
        )
    } else if stage == 7 {
        spec_parse_assignment_like_from(
            tree,
            0,
            seq![AST_Type::Unparsed(TokenType::EQUAL)],
            AST_Type::Stmt(StmtType::Assignment),
            source,
        )
    } else if stage == 8 {
        spec_parse_assignment_like_from(
            tree,
            0,
            seq![AST_Type::Unparsed(TokenType::PLUS_EQUAL)],
            AST_Type::Stmt(StmtType::PlusEqual),
            source,
        )
    } else if stage == 9 {
        spec_parse_assignment_like_from(
            tree,
            0,
            seq![AST_Type::Unparsed(TokenType::MINUS_EQUAL)],
            AST_Type::Stmt(StmtType::MinusEqual),
            source,
        )
    } else if stage == 10 {
        spec_parse_assignment_like_from(
            tree,
            0,
            seq![AST_Type::Unparsed(TokenType::STAR_EQUAL)],
            AST_Type::Stmt(StmtType::StarEqual),
            source,
        )
    } else if stage == 11 {
        spec_parse_assignment_like_from(
            tree,
            0,
            seq![AST_Type::Unparsed(TokenType::SLASH_EQUAL)],
            AST_Type::Stmt(StmtType::SlashEqual),
            source,
        )
    } else if stage == 12 {
        spec_parse_prefix_from(
            tree,
            0,
            seq![AST_Type::Unparsed(TokenType::VAR)],
            seq![AST_Type::Stmt(StmtType::Assignment)],
            spec_valid_before_var(),
            AST_Type::Stmt(StmtType::Declaration),
            source,
        )
    } else if stage == 13 {
        spec_parse_comma_from(tree, 0, spec_rvalues(), AST_Type::Tuple, source)
    } else if stage == 14 {
        spec_parse_ternary_stmt_like_while_from(
            tree,
            0,
            seq![AST_Type::Unparsed(TokenType::WHILE)],
            seq![AST_Type::Expr(ExprType::Paren), expr],
            seq![AST_Type::Stmt(StmtType::Braced)],
            AST_Type::Stmt(StmtType::While),
            source,
            "Expected expression after while"@,
            "Expected {stmt} after while"@,
        )
    } else if stage == 15 {
        spec_parse_if_from(tree, 0, false, source)
    } else if stage == 16 {
        ParseView::Finished(spec_parse_stmt_sep_from(tree, 0))
    } else {
        ParseView::Finished(spec_parse_compound_from(tree, 0, -1))
    }
}

/// The passes from number `stage` on, each on what the one before left,
/// until one does not finish; at the end the parse is finished if at most
/// one node is left.
pub open spec fn spec_passes_from(tree: Seq<NodeView>, stage: int, source: Seq<char>) -> ParseView
    decreases PASS_COUNT - stage,
{
    if stage < 0 || stage >= PASS_COUNT {
        spec_is_finished(tree, source)
    } else {
        match spec_pass(tree, stage, source) {
            ParseView::Finished(t) => spec_passes_from(t, stage + 1, source),
            other => other,
        }
    }
}

/// The fold of the outermost delimiter pairs `pairs[0..k]`, the last one
/// first, so that the positions of the pairs before it stay as they are.
/// What stands inside a pair is parsed on its own; the opening delimiter
/// takes the classification of the region and adopts the node that this
/// parse leaves, or nothing where it leaves nothing. A region in which a
/// delimiter is left open is an error at the opening delimiter of the
/// region. (The fold stops at a pair that is none of the run; the scan
/// hands out no such pair.)
pub open spec fn spec_fold_delimited(
    tree: Seq<NodeView>,
    pairs: Seq<(usize, usize)>,
    k: int,
    braces: bool,
    source: Seq<char>,
) -> ParseView
    decreases tree.len(), 0nat, k,
{
    if k <= 0 || k > pairs.len() {
        ParseView::Finished(tree)
    } else {
        let start = pairs[k - 1].0 as int;
        let end = pairs[k - 1].1 as int;
        let region = if braces {
            spec_brace_region(tree, start, end)
        } else {
            spec_paren_region(tree, start, end)
        };
        if !(start < end < tree.len()) || region.len() >= tree.len() {
            ParseView::Finished(tree)
        } else {
            let sub = spec_real_parse(region, source);
            if sub is Failed {
                sub
            } else if sub is Unfinished {
                ParseView::Failed(spec_node_error(tree[start], "Incomplete Inner Expr"@, source))
            } else {
                spec_fold_delimited(
                    spec_splice(
                        tree,
                        start,
                        end + 1,
                        spec_adopt(tree[start], spec_region_type(braces), spec_tree_of(sub)),
                    ),
                    pairs,
                    k - 1,
                    braces,
                    source,
                )
            }
        }
    }
}

/// The resolution of one kind of delimiter over a run: parentheses, or
/// braces where `braces` holds. A closing delimiter without partner is an
/// error; an opening delimiter without partner means that more input is
/// needed, and the run stays as it is.
pub open spec fn spec_parse_delimiters(
    tree: Seq<NodeView>,
    braces: bool,
    source: Seq<char>,
) -> ParseView
    decreases tree.len(), 1nat, 0int,
{
    let left = AST_Type::Unparsed(
        if braces {
            TokenType::LEFT_BRACE
        } else {
            TokenType::LEFT_PAREN
        },
    );
    let right = AST_Type::Unparsed(
        if braces {
            TokenType::RIGHT_BRACE
        } else {
            TokenType::RIGHT_PAREN
        },
    );
    match spec_delimiter_location(tree, left, right) {
        DelimiterScan::ExtraRight(at) => ParseView::Failed(
            spec_node_error(tree[at], "Extra right delimiter"@, source),
        ),
        DelimiterScan::Unpaired => ParseView::Unfinished(tree),
        DelimiterScan::Balanced(pairs) => spec_fold_delimited(
            tree,
            pairs,
            pairs.len() as int,
            braces,
            source,
        ),
    }
}

/// The parse of a run. A run of at most one node is finished as it is.
/// Else parentheses are resolved, then braces, then the passes run in
/// their order. More input is needed only where an opening delimiter has
/// no partner; a run that the passes leave with more than one node is an
/// error. (Resolving delimiters never makes a run longer:
/// `lemma_parse_delimiters_len`.)
pub open spec fn spec_real_parse(tree: Seq<NodeView>, source: Seq<char>) -> ParseView
    decreases tree.len(), 2nat, 0int,
{
    if tree.len() <= 1 {
        ParseView::Finished(tree)
    } else {
        let parens = spec_parse_delimiters(tree, false, source);
        if !(parens is Finished) || spec_tree_of(parens).len() > tree.len() {
            parens
        } else {
            let braces = spec_parse_delimiters(spec_tree_of(parens), true, source);
            if !(braces is Finished) {
                braces
            } else {
                spec_passes_from(spec_tree_of(braces), 0, source)
            }
        }
    }
}

/// Folding delimiter pairs never makes a run longer.
pub proof fn lemma_fold_delimited_len(
    tree: Seq<NodeView>,
    pairs: Seq<(usize, usize)>,
    k: int,
    braces: bool,
    source: Seq<char>,
)
    ensures
        spec_tree_of(spec_fold_delimited(tree, pairs, k, braces, source)).len() <= tree.len(),
        !(spec_fold_delimited(tree, pairs, k, braces, source) is Unfinished),
    decreases tree.len(), k,
{
    if k <= 0 || k > pairs.len() {
    } else {
        let start = pairs[k - 1].0 as int;
        let end = pairs[k - 1].1 as int;
        let region = if braces {
            spec_brace_region(tree, start, end)
        } else {
            spec_paren_region(tree, start, end)
        };
        if !(start < end < tree.len()) || region.len() >= tree.len() {
        } else {
            let sub = spec_real_parse(region, source);
            if sub is Failed {
            } else if sub is Unfinished {
            } else {
                lemma_fold_delimited_len(
                    spec_splice(
                        tree,
                        start,
                        end + 1,
                        spec_adopt(tree[start], spec_region_type(braces), spec_tree_of(sub)),
                    ),
                    pairs,
                    k - 1,
                    braces,
                    source,
                );
            }
        }
    }
}

/// Resolving delimiters never makes a run longer.
pub proof fn lemma_parse_delimiters_len(tree: Seq<NodeView>, braces: bool, source: Seq<char>)
    ensures
        spec_tree_of(spec_parse_delimiters(tree, braces, source)).len() <= tree.len(),
{
    let left = AST_Type::Unparsed(
        if braces {
            TokenType::LEFT_BRACE
        } else {
            TokenType::LEFT_PAREN
        },
    );
    let right = AST_Type::Unparsed(
        if braces {
            TokenType::RIGHT_BRACE
        } else {
            TokenType::RIGHT_PAREN
        },
    );
    match spec_delimiter_location(tree, left, right) {
        DelimiterScan::Balanced(pairs) => {
            lemma_fold_delimited_len(tree, pairs, pairs.len() as int, braces, source);
        },
        _ => {},
    }
}

/// Resolves one kind of delimiter: parentheses, or braces where `braces`
/// holds.
#[verifier::rlimit(40)]
fn parse_delimited(tree: &mut ParseTreeUnfinshed, braces: bool, source: &str) -> (r: ParseState)
    ensures
        final(tree)@.len() <= old(tree)@.len(),
        state_agrees(r, final(tree)@, spec_parse_delimiters(old(tree)@, braces, source@)),
    decreases old(tree)@.len(), 1nat,
{
    let left = AST_Type::Unparsed(
        if braces {
            TokenType::LEFT_BRACE
        } else {
            TokenType::LEFT_PAREN
        },
    );
    let right = AST_Type::Unparsed(
        if braces {
            TokenType::RIGHT_BRACE
        } else {
            TokenType::RIGHT_PAREN
        },
    );
    let result_type = if braces {
        AST_Type::Stmt(StmtType::Braced)
    } else {
        AST_Type::Expr(ExprType::Paren)
    };
    let pairs = match get_delimiter_location(left, right, tree, source) {
        Ok(pairs) => pairs,
        Err(e) => {
            if e.get_error_type() == ErrorType::UnterminatedDelimiter {
                return ParseState::Unfinished;
            }
            return ParseState::Error(e);
        },
    };
    let _ = tree.len();
    proof {
        lemma_scan_pairs(tree@, left, right, 0, 0, 0, Seq::empty());
    }
    let mut k: usize = pairs.len();
    while k > 0
        invariant
            k <= pairs@.len(),
            tree@.len() <= old(tree)@.len(),
            result_type == spec_region_type(braces),
            left == spec_left_delimiter(braces),
            right == spec_right_delimiter(braces),
            spec_pairs_in_order(tree@, left, right, pairs@, k as int),
            spec_fold_delimited(tree@, pairs@, k as int, braces, source@) == spec_parse_delimiters(
                old(tree)@,
                braces,
                source@,
            ),
        decreases k,
    {
        let (start, end) = pairs[k - 1];
        let ghost before = tree@;
        let len = tree.content.len();
        assert(pairs@[k - 1].0 < pairs@[k - 1].1 < len);
        let mut span = tree.drain(start, end + 1);
        let mut closing = span.pop();
        let l = span.len();
        let mut region = span.drain(1, l);
        let mut opening = span.pop();
        assert(region@ =~= before.subrange(start + 1, end as int));
        if braces {
            if region.len() > 0 {
                closing.set_AST_Type(AST_Type::Unparsed(TokenType::STMT_SEP));
                region.push(closing);
            }
        }
        assert(region@ =~= if braces {
            spec_brace_region(before, start as int, end as int)
        } else {
            spec_paren_region(before, start as int, end as int)
        });
        let ghost inner = region@;
        let state = real_parse(&mut region, source);
        match state {
            ParseState::Error(e) => {
                return ParseState::Error(e);
            },
            ParseState::Unfinished => {
                return ParseState::Error(node_error(&opening, "Incomplete Inner Expr", source));
            },
            ParseState::Finished => {},
        }
        opening.set_AST_Type(result_type);
        opening.append_children(region.content);
        tree.insert(start, opening);
        assert(tree@ =~= spec_splice(before, start as int, end + 1, opening@));
        proof {
            let after = tree@;
            assert forall|j: int| 0 <= j < k - 1 implies {
                &&& (#[trigger] pairs@[j]).0 < pairs@[j].1 < after.len()
                &&& after[pairs@[j].0 as int].ast_type == left
                &&& after[pairs@[j].1 as int].ast_type == right
            } by {
                assert(pairs@[j].1 < pairs@[k - 1].0);
                assert(after[pairs@[j].0 as int] == before[pairs@[j].0 as int]);
                assert(after[pairs@[j].1 as int] == before[pairs@[j].1 as int]);
            }
        }
        k -= 1;
    }
    ParseState::Finished
}

/// Resolves parentheses: each outermost pair, with what stands inside
/// parsed on its own, becomes one parenthesised expression.
pub fn parse_parenthesis(tree: &mut ParseTreeUnfinshed, source: &str) -> (r: ParseState)
    ensures
        final(tree)@.len() <= old(tree)@.len(),
        state_agrees(r, final(tree)@, spec_parse_delimiters(old(tree)@, false, source@)),
    decreases old(tree)@.len(), 2nat,
{
    parse_delimited(tree, false, source)
}

/// Resolves braces: each outermost pair, with what stands inside parsed on
/// its own, becomes one braced statement.
pub fn parse_braces(tree: &mut ParseTreeUnfinshed, source: &str) -> (r: ParseState)
    ensures
        final(tree)@.len() <= old(tree)@.len(),
        state_agrees(r, final(tree)@, spec_parse_delimiters(old(tree)@, true, source@)),
    decreases old(tree)@.len(), 2nat,
{
    parse_delimited(tree, true, source)
}

/// Runs the pass with the number `stage`.
fn run_pass(tree: &mut ParseTreeUnfinshed, stage: u8, source: &str) -> (r: ParseState)
    requires
        stage < PASS_COUNT,
    ensures
        final(tree)@.len() <= old(tree)@.len(),
        state_agrees(r, final(tree)@, spec_pass(old(tree)@, stage as int, source@)),
{
    let expr = AST_Type::Expr(ExprType::Normal);
    let values = rvalues();
    if stage == 0 {
        parse_function_definition(tree, source)
    } else if stage == 1 {
        parse_function_call(tree)
    } else if stage == 2 {
        let mut valid_after = AST_Type::get_all_stmt();
        valid_after.push(AST_Type::Unparsed(TokenType::STMT_SEP));
        let mut operators = copulative();
        valid_after.append(&mut operators);
        let prefixes = vec![AST_Type::Unparsed(TokenType::MINUS)];
        let operands = vec![expr, AST_Type::Expr(ExprType::Paren), AST_Type::Identifier];
        assert(prefixes@ =~= seq![AST_Type::Unparsed(TokenType::MINUS)]);
        assert(operands@ =~= seq![expr, AST_Type::Expr(ExprType::Paren), AST_Type::Identifier]);
        parse_prefix(
            tree,
            prefixes,
            operands,
            valid_after,
            AST_Type::Expr(ExprType::Negated),
            source,
        )
    } else if stage <= 6 {
        let operators = if stage == 3 {
            let o = vec![TokenType::STAR, TokenType::SLASH, TokenType::PERCENT];
            assert(o@ =~= seq![TokenType::STAR, TokenType::SLASH, TokenType::PERCENT]);
            o
        } else if stage == 4 {
            let o = vec![TokenType::PLUS, TokenType::MINUS];
            assert(o@ =~= seq![TokenType::PLUS, TokenType::MINUS]);
            o
        } else if stage == 5 {
            let o = vec![
                TokenType::GREATER,
                TokenType::GREATER_EQUAL,
                TokenType::LESS,
                TokenType::LESS_EQUAL,
            ];
            assert(o@ =~= seq![
                TokenType::GREATER,
                TokenType::GREATER_EQUAL,
                TokenType::LESS,
                TokenType::LESS_EQUAL,
            ]);
            o
        } else {
            let o = vec![TokenType::EQUAL_EQUAL, TokenType::BANG_EQUAL];
            assert(o@ =~= seq![TokenType::EQUAL_EQUAL, TokenType::BANG_EQUAL]);
            o
        };
        parse_ternary_left_assoc(
            tree,
            values.as_slice(),
            operators.as_slice(),
            values.as_slice(),
            expr,
            source,
        )
    } else if stage <= 11 {
        let (operator, result_type) = if stage == 7 {
            (TokenType::EQUAL, StmtType::Assignment)
        } else if stage == 8 {
            (TokenType::PLUS_EQUAL, StmtType::PlusEqual)
        } else if stage == 9 {
            (TokenType::MINUS_EQUAL, StmtType::MinusEqual)
        } else if stage == 10 {
            (TokenType::STAR_EQUAL, StmtType::StarEqual)
        } else {
            (TokenType::SLASH_EQUAL, StmtType::SlashEqual)
        };
        let keys = vec![AST_Type::Unparsed(operator)];
        assert(keys@ =~= seq![AST_Type::Unparsed(operator)]);
        parse_assignment_like(tree, keys, AST_Type::Stmt(result_type), source)
    } else if stage == 12 {
        let mut valid_after = AST_Type::get_all_stmt();
        valid_after.push(AST_Type::Unparsed(TokenType::STMT_SEP));
        let prefixes = vec![AST_Type::Unparsed(TokenType::VAR)];
        let operands = vec![AST_Type::Stmt(StmtType::Assignment)];
        assert(prefixes@ =~= seq![AST_Type::Unparsed(TokenType::VAR)]);
        assert(operands@ =~= seq![AST_Type::Stmt(StmtType::Assignment)]);
        parse_prefix(
            tree,
            prefixes,
            operands,
            valid_after,
            AST_Type::Stmt(StmtType::Declaration),
            source,
        )
    } else if stage == 13 {
        parse_comma(tree, values.as_slice(), AST_Type::Tuple, source)
    } else if stage == 14 {
        let keywords = vec![AST_Type::Unparsed(TokenType::WHILE)];
        let conditions = vec![AST_Type::Expr(ExprType::Paren), expr];
        let bodies = vec![AST_Type::Stmt(StmtType::Braced)];
        assert(keywords@ =~= seq![AST_Type::Unparsed(TokenType::WHILE)]);
        assert(conditions@ =~= seq![AST_Type::Expr(ExprType::Paren), expr]);
        assert(bodies@ =~= seq![AST_Type::Stmt(StmtType::Braced)]);
        parse_ternary_stmt_like_while(
            tree,
            keywords.as_slice(),
            conditions.as_slice(),
            bodies.as_slice(),
            AST_Type::Stmt(StmtType::While),
            source,
            "Expected expression after while",
            "Expected {stmt} after while",
        )
    } else if stage == 15 {
        parse_if(tree, source)
    } else if stage == 16 {
        parse_stmt_sep(tree)
    } else {
        parse_stmt_into_compound_stmt(tree)
    }
}

/// Parses the run in place. `Finished` means that at most one node is
/// left, the root of the tree; `Unfinished` that more input is needed,
/// because a delimiter is still open. A run that the passes leave with
/// more than one node is an error at its second node.
#[verifier::rlimit(40)]
pub fn real_parse(tree: &mut ParseTreeUnfinshed, source: &str) -> (r: ParseState)
    ensures
        state_agrees(r, final(tree)@, spec_real_parse(old(tree)@, source@)),
        r is Finished ==> final(tree)@.len() <= 1,
        r is Unfinished ==> spec_has_open_delimiter(final(tree)@),
        final(tree)@.len() <= old(tree)@.len(),
        spec_all_well_formed(old(tree)@) ==> spec_all_well_formed(final(tree)@) || r is Error,
    decreases old(tree)@.len(), 3nat,
{
    let _ = tree.len();
    proof {
        lemma_unfinished_only_for_open_delimiter(tree@, source@);
        lemma_real_parse_len(tree@, source@);
        if spec_all_well_formed(tree@) {
            lemma_real_parse_well_formed(tree@, source@);
        }
    }
    if tree.len() <= 1 {
        return ParseState::Finished;
    }
    proof {
        lemma_parse_delimiters_len(tree@, false, source@);
    }
    let parens = parse_parenthesis(tree, source);
    match parens {
        ParseState::Finished => {},
        other => {
            return other;
        },
    }
    let braces = parse_braces(tree, source);
    match braces {
        ParseState::Finished => {},
        other => {
            return other;
        },
    }
    let ghost resolved = tree@;
    let mut stage: u8 = 0;
    while stage < PASS_COUNT
        invariant
            tree@.len() <= old(tree)@.len(),
            stage <= PASS_COUNT,
            old(tree)@.len() <= usize::MAX,
            spec_passes_from(tree@, stage as int, source@) == spec_passes_from(
                resolved,
                0,
                source@,
            ),
            spec_passes_from(resolved, 0, source@) == spec_real_parse(old(tree)@, source@),
        decreases PASS_COUNT - stage,
    {
        let state = run_pass(tree, stage, source);
        match state {
            ParseState::Finished => {},
            other => {
                proof {
                    lemma_unfinished_only_for_open_delimiter(old(tree)@, source@);
                    lemma_real_parse_len(old(tree)@, source@);
                    if spec_all_well_formed(old(tree)@) {
                        lemma_real_parse_well_formed(old(tree)@, source@);
                    }
                }
                return other;
            },
        }
        stage += 1;
    }
    if tree.content.len() > 1 {
        let mut e = node_error(&tree.content[1], "Expected the end of the statement", source);
        e.set_error_type(ErrorType::ParseErr);
        return ParseState::Error(e);
    }
    ParseState::Finished
}

/// Appends the leaves of `tokens` to the run and parses it. The run may
/// hold what an earlier, unfinished parse left.
pub fn parse(tokens: Vec<Token>, tree: &mut ParseTreeUnfinshed, source: &str) -> (r: ParseState)
    ensures
        state_agrees(
            r,
            final(tree)@,
            spec_real_parse(old(tree)@ + spec_leaves_of(token_views(tokens@)), source@),
        ),
        r is Finished ==> final(tree)@.len() <= 1,
        r is Unfinished ==> spec_has_open_delimiter(final(tree)@),
        final(tree)@.len() <= old(tree)@.len() + tokens@.len(),
        spec_all_well_formed(old(tree)@) ==> spec_all_well_formed(final(tree)@) || r is Error,
{
    proof {
        lemma_leaves_well_formed(token_views(tokens@));
        if spec_all_well_formed(tree@) {
            lemma_concat_well_formed(tree@, spec_leaves_of(token_views(tokens@)));
        }
    }
    let input_list = ParseTreeUnfinshed::from_tokens(tokens);
    tree.extend(input_list);
    real_parse(tree, source)
}

/// Scans a chunk of source text and parses the run with its tokens behind
/// what the run held. Where the text does not scan, the run stays as it is.
pub fn parse_from_string(
    string_input: &str,
    line_number: &mut usize,
    tree: &mut ParseTreeUnfinshed,
    source: &str,
) -> (r: ParseState)
    requires
        *old(line_number) + string_input@.len() < usize::MAX,
    ensures
        match crate::scanner::spec_scan_tokens(string_input@, *old(line_number), source@) {
            Err(e) => r is Error && r->Error_0@ == e && final(tree)@ == old(tree)@,
            Ok((tokens, last_line)) => {
                &&& *final(line_number) == last_line
                &&& state_agrees(
                    r,
                    final(tree)@,
                    spec_real_parse(old(tree)@ + spec_leaves_of(tokens), source@),
                )
                &&& final(tree)@.len() <= old(tree)@.len() + tokens.len()
            },
        },
{
    let tokens = match crate::scanner::scan_tokens(string_input, line_number, source) {
        Ok(ok) => ok,
        Err(e) => {
            return ParseState::Error(e);
        },
    };
    parse(tokens, tree, source)
}

} // verus!
