//! The parser's working buffer: an ordered run of nodes that the rewrite
//! passes fold until one node is left, and the pattern matcher over it.
use crate::ast_node::{
    group_views, spec_initial_type, spec_leaf, views, AST_Node, AST_Type, NodeView,
};
use crate::err_lox::{spec_error_at, ErrorLox, ErrorType, ErrorView};
use crate::parser::ParseState;
use crate::token::{Token, TokenType, TokenView};
use vstd::prelude::*;

verus! {

broadcast use group_views;

/// The run of nodes still to be folded.
#[derive(Debug)]
pub struct ParseTreeUnfinshed {
    pub content: Vec<AST_Node>,
}

impl View for ParseTreeUnfinshed {
    type V = Seq<NodeView>;

    open spec fn view(&self) -> Seq<NodeView> {
        views(self.content@)
    }
}

#[derive(Clone, Copy, Debug, PartialEq, Eq, Structural)]
pub enum PatternMatchingRes {
    /// Every position of the pattern admits the node that stands there.
    Matched,
    /// The key position does not admit its node: the pattern does not apply.
    Nomatch,
    /// The key position matched, and this is the first position that did not.
    FailedAt(usize),
}

#[derive(Clone, Copy, Debug, PartialEq, Eq, Structural)]
pub enum RepetitivePatternMatchingRes {
    Nomatch,
    /// The offset, from the start index, of the last node that matched.
    MatchUntil(usize),
}

/// The sets of classifications that a list of patterns stands for.
pub open spec fn pattern_sets(patterns: Seq<Vec<AST_Type>>) -> Seq<Seq<AST_Type>> {
    Seq::new(patterns.len(), |i: int| patterns[i]@)
}

/// Whether position `i` of `patterns` admits the node that stands `i` places
/// behind `index`. A position past the end of the run admits nothing.
pub open spec fn spec_position_matches(
    tree: Seq<NodeView>,
    index: int,
    patterns: Seq<Seq<AST_Type>>,
    i: int,
) -> bool {
    index + i < tree.len() && patterns[i].contains(tree[index + i].ast_type)
}

/// The first position at or behind `from` that does not match, or the
/// length of `patterns` if all of them match.
pub open spec fn spec_first_mismatch(
    tree: Seq<NodeView>,
    index: int,
    patterns: Seq<Seq<AST_Type>>,
    from: int,
) -> int
    decreases patterns.len() - from,
{
    if from >= patterns.len() {
        patterns.len() as int
    } else if !spec_position_matches(tree, index, patterns, from) {
        from
    } else {
        spec_first_mismatch(tree, index, patterns, from + 1)
    }
}

/// The outcome of matching `patterns` against the nodes from `index` on,
/// anchored at the key position `key`.
pub open spec fn spec_match_ast_pattern(
    tree: Seq<NodeView>,
    index: int,
    patterns: Seq<Seq<AST_Type>>,
    key: int,
) -> PatternMatchingRes {
    if !spec_position_matches(tree, index, patterns, key) {
        PatternMatchingRes::Nomatch
    } else {
        let m = spec_first_mismatch(tree, index, patterns, 0);
        if m >= patterns.len() {
            PatternMatchingRes::Matched
        } else {
            PatternMatchingRes::FailedAt(m as usize)
        }
    }
}

/// Whether `p` is the first position that does not match although the key
/// position `key` does.
pub open spec fn spec_fails_at(
    tree: Seq<NodeView>,
    index: int,
    patterns: Seq<Seq<AST_Type>>,
    key: int,
    p: int,
) -> bool {
    &&& spec_position_matches(tree, index, patterns, key)
    &&& 0 <= p < patterns.len()
    &&& !spec_position_matches(tree, index, patterns, p)
    &&& forall|j: int| 0 <= j < p ==> spec_position_matches(tree, index, patterns, j)
}

/// What `spec_first_mismatch` finds: every position from `from` up to the
/// result matches, and the result itself, if it is a position, does not.
pub proof fn lemma_first_mismatch(
    tree: Seq<NodeView>,
    index: int,
    patterns: Seq<Seq<AST_Type>>,
    from: int,
)
    requires
        0 <= from <= patterns.len(),
    ensures
        from <= spec_first_mismatch(tree, index, patterns, from) <= patterns.len(),
        forall|j: int|
            from <= j < spec_first_mismatch(tree, index, patterns, from)
                ==> spec_position_matches(tree, index, patterns, j),
        spec_first_mismatch(tree, index, patterns, from) < patterns.len()
            ==> !spec_position_matches(
            tree,
            index,
            patterns,
            spec_first_mismatch(tree, index, patterns, from),
        ),
    decreases patterns.len() - from,
{
    if from < patterns.len() && spec_position_matches(tree, index, patterns, from) {
        lemma_first_mismatch(tree, index, patterns, from + 1);
    }
}

/// The pattern matcher's three outcomes, each with the inputs that give it:
/// `Matched` exactly when every position matches; `Nomatch` exactly when the
/// key position does not; `FailedAt(p)` exactly when the key position
/// matches and `p` is the first position that does not.
pub proof fn lemma_match_ast_pattern_outcomes(
    tree: Seq<NodeView>,
    index: int,
    patterns: Seq<Seq<AST_Type>>,
    key: int,
)
    requires
        0 <= key < patterns.len(),
        patterns.len() <= usize::MAX,
    ensures
        spec_match_ast_pattern(tree, index, patterns, key) == PatternMatchingRes::Matched <==> (
        forall|i: int|
            0 <= i < patterns.len() ==> spec_position_matches(tree, index, patterns, i)),
        spec_match_ast_pattern(tree, index, patterns, key) == PatternMatchingRes::Nomatch
            <==> !spec_position_matches(tree, index, patterns, key),
        forall|p: usize|
            spec_match_ast_pattern(tree, index, patterns, key) == PatternMatchingRes::FailedAt(p)
                <==> #[trigger] spec_fails_at(tree, index, patterns, key, p as int),
{
    lemma_first_mismatch(tree, index, patterns, 0);
    let m = spec_first_mismatch(tree, index, patterns, 0);
    assert forall|p: usize| #[trigger]
        spec_fails_at(tree, index, patterns, key, p as int) implies spec_match_ast_pattern(
        tree,
        index,
        patterns,
        key,
    ) == PatternMatchingRes::FailedAt(p) by {
        if m < p {
            assert(spec_position_matches(tree, index, patterns, m));
        }
        if p < m {
            assert(spec_position_matches(tree, index, patterns, p as int));
        }
    }
}

/// Whether a node is a statement separator that no pass has folded yet.
pub open spec fn spec_is_stmt_sep(n: NodeView) -> bool {
    n.ast_type == AST_Type::Unparsed(TokenType::STMT_SEP)
}

/// The run with the statement separators that stand in a row from `idx` on
/// taken out. The last node of a run is never taken out.
pub open spec fn spec_delete_consec_stmt_sep(tree: Seq<NodeView>, idx: int) -> Seq<NodeView>
    decreases tree.len(),
{
    if 0 <= idx && idx + 1 < tree.len() && spec_is_stmt_sep(tree[idx]) {
        spec_delete_consec_stmt_sep(tree.remove(idx), idx)
    } else {
        tree
    }
}

pub proof fn lemma_delete_consec_stmt_sep_len(tree: Seq<NodeView>, idx: int)
    ensures
        spec_delete_consec_stmt_sep(tree, idx).len() <= tree.len(),
        spec_delete_consec_stmt_sep(tree, idx).len() > idx || spec_delete_consec_stmt_sep(
            tree,
            idx,
        ) == tree,
    decreases tree.len(),
{
    if 0 <= idx && idx + 1 < tree.len() && spec_is_stmt_sep(tree[idx]) {
        lemma_delete_consec_stmt_sep_len(tree.remove(idx), idx);
    }
}

/// The state of a cyclic match after `matched` nodes matched: the run, from
/// which separators behind matched nodes have been taken out, and the final
/// number of nodes that match.
pub open spec fn spec_repetitive_from(
    tree: Seq<NodeView>,
    index: int,
    patterns: Seq<Seq<AST_Type>>,
    matched: int,
) -> (Seq<NodeView>, int)
    decreases tree.len() - index - matched,
{
    if 0 <= index && 0 <= matched && patterns.len() > 0 && index + matched < tree.len()
        && patterns[matched % (patterns.len() as int)].contains(tree[index + matched].ast_type) {
        let rest = spec_delete_consec_stmt_sep(tree, index + matched + 1);
        if rest.len() <= tree.len() && rest.len() > index + matched {
            spec_repetitive_from(rest, index, patterns, matched + 1)
        } else {
            (rest, matched + 1)
        }
    } else {
        (tree, matched)
    }
}

/// The outcome of a cyclic match in which `count` nodes matched.
pub open spec fn spec_repetitive_res(count: int) -> RepetitivePatternMatchingRes {
    if 0 < count <= usize::MAX {
        RepetitivePatternMatchingRes::MatchUntil((count - 1) as usize)
    } else {
        RepetitivePatternMatchingRes::Nomatch
    }
}

/// The leaves that a run of tokens starts out as.
pub open spec fn spec_leaves_of(tokens: Seq<TokenView>) -> Seq<NodeView> {
    Seq::new(
        tokens.len(),
        |i: int| spec_leaf(spec_initial_type(tokens[i].token_type), tokens[i]),
    )
}

/// The values of a run of tokens.
pub open spec fn token_views(tokens: Seq<Token>) -> Seq<TokenView> {
    Seq::new(tokens.len(), |i: int| tokens[i]@)
}

impl ParseTreeUnfinshed {
    pub fn new() -> (r: ParseTreeUnfinshed)
        ensures
            r@ == Seq::<NodeView>::empty(),
    {
        ParseTreeUnfinshed { content: Vec::new() }
    }

    /// The buffer that holds one leaf for each token, in order.
    #[verifier::rlimit(40)]
    pub fn from_tokens(tokens: Vec<Token>) -> (r: ParseTreeUnfinshed)
        ensures
            r@ == spec_leaves_of(token_views(tokens@)),
    {
        let mut tokens = tokens;
        let ghost all = token_views(tokens@);
        let mut rest: Vec<AST_Node> = Vec::new();
        // Tokens are taken from the back, so the leaves come out reversed.
        while tokens.len() > 0
            invariant
                tokens@.len() + rest@.len() == all.len(),
                token_views(tokens@) == all.subrange(0, tokens@.len() as int),
                forall|j: int|
                    0 <= j < rest@.len() ==> (#[trigger] rest@[j])@ == spec_leaves_of(all)[all.len()
                        - 1 - j],
            decreases tokens@.len(),
        {
            let ghost before = tokens@;
            let token = tokens.pop().unwrap();
            proof {
                assert(token@ == token_views(before)[before.len() - 1]);
                assert(token_views(tokens@) =~= all.subrange(0, tokens@.len() as int));
            }
            rest.push(AST_Node::from_token(token));
        }
        let mut content: Vec<AST_Node> = Vec::new();
        while rest.len() > 0
            invariant
                content@.len() + rest@.len() == all.len(),
                forall|j: int|
                    0 <= j < rest@.len() ==> (#[trigger] rest@[j])@ == spec_leaves_of(all)[all.len()
                        - 1 - j],
                forall|j: int|
                    0 <= j < content@.len() ==> (#[trigger] content@[j])@ == spec_leaves_of(all)[j],
            decreases rest@.len(),
        {
            let node = rest.pop().unwrap();
            content.push(node);
        }
        assert(views(content@) =~= spec_leaves_of(all));
        ParseTreeUnfinshed { content }
    }

    pub fn push(&mut self, item: AST_Node)
        ensures
            final(self)@ == old(self)@.push(item@),
    {
        self.content.push(item);
    }

    /// Appends the nodes of `ext` behind the nodes of `self`.
    pub fn extend(&mut self, ext: ParseTreeUnfinshed)
        ensures
            final(self)@ == old(self)@ + ext@,
    {
        let mut ext = ext;
        self.content.append(&mut ext.content);
    }

    /// Takes the node at `index` out of the run and drops it.
    pub fn remove(&mut self, index: usize)
        requires
            index < old(self)@.len(),
        ensures
            final(self)@ == old(self)@.remove(index as int),
    {
        let _ = self.content.remove(index);
    }

    /// Takes the node at `index` out of the run and hands it over.
    pub fn take(&mut self, index: usize) -> (r: AST_Node)
        requires
            index < old(self)@.len(),
        ensures
            final(self)@ == old(self)@.remove(index as int),
            r@ == old(self)@[index as int],
    {
        self.content.remove(index)
    }

    /// Takes the last node out of the run and hands it over.
    pub fn pop(&mut self) -> (r: AST_Node)
        requires
            old(self)@.len() > 0,
        ensures
            final(self)@ == old(self)@.drop_last(),
            r@ == old(self)@.last(),
    {
        let r = self.content.pop().unwrap();
        assert(self@ =~= old(self)@.drop_last());
        r
    }

    /// Puts `node` at `index`, moving the nodes from there on one place back.
    pub fn insert(&mut self, index: usize, node: AST_Node)
        requires
            index <= old(self)@.len(),
        ensures
            final(self)@ == old(self)@.insert(index as int, node@),
    {
        self.content.insert(index, node);
    }

    pub fn len(&self) -> (r: usize)
        ensures
            r == self@.len(),
    {
        self.content.len()
    }

    /// A buffer that holds copies of the nodes from `start` up to, not
    /// including, `end`.
    pub fn slice(&self, start: usize, end: usize) -> (r: ParseTreeUnfinshed)
        requires
            start <= end <= self@.len(),
        ensures
            r@ == self@.subrange(start as int, end as int),
    {
        let mut content: Vec<AST_Node> = Vec::new();
        let mut i: usize = start;
        while i < end
            invariant
                start <= i <= end <= self.content@.len(),
                views(content@) == views(self.content@).subrange(start as int, i as int),
            decreases end - i,
        {
            content.push(self.content[i].duplicate());
            assert(views(self.content@).subrange(start as int, i + 1) =~= views(
                self.content@,
            ).subrange(start as int, i as int).push(self.content@[i as int]@));
            i += 1;
        }
        ParseTreeUnfinshed { content }
    }

    /// Takes the nodes from `start` up to, not including, `end` out of the
    /// run and hands them over as a buffer of their own.
    pub fn drain(&mut self, start: usize, end: usize) -> (r: ParseTreeUnfinshed)
        requires
            start <= end <= old(self)@.len(),
        ensures
            r@ == old(self)@.subrange(start as int, end as int),
            final(self)@ == old(self)@.subrange(0, start as int) + old(self)@.subrange(
                end as int,
                old(self)@.len() as int,
            ),
    {
        let mut tail = self.content.split_off(end);
        let middle = self.content.split_off(start);
        self.content.append(&mut tail);
        ParseTreeUnfinshed { content: middle }
    }

    /// Puts `node` in the place of the node at `index`.
    pub fn replace(&mut self, index: usize, node: AST_Node)
        requires
            index < old(self)@.len(),
        ensures
            final(self)@ == old(self)@.update(index as int, node@),
    {
        self.content[index] = node;
    }

    /// The root of a finished parse: the only node of the run, or nothing
    /// if the run is empty. A run of several nodes is not finished.
    pub fn get_finished_node(&self) -> (r: Result<Option<&AST_Node>, ErrorLox>)
        ensures
            self@.len() == 0 ==> r == Ok::<Option<&AST_Node>, ErrorLox>(None),
            self@.len() == 1 ==> r is Ok && r->Ok_0 is Some && r->Ok_0->Some_0@ == self@[0],
            self@.len() > 1 ==> r is Err && r->Err_0@ == spec_error_at(
                "Internal Error: Parse Tree is unfinished when calling get_finished_node"@,
                self@[1].token.line,
                self@[1].token.column,
                self@[1].token.source_file,
            ),
    {
        if self.content.len() > 1 {
            return Err(
                ErrorLox::from_ast_node(
                    &self.content[1],
                    "Internal Error: Parse Tree is unfinished when calling get_finished_node",
                ),
            );
        }
        if self.content.len() == 1 {
            return Ok(Some(&self.content[0]));
        }
        Ok(None)
    }

    /// `Finished` if at most one node is left; a second node is a parse
    /// error that points at it.
    pub fn is_finished(&self) -> (r: ParseState)
        ensures
            self@.len() <= 1 ==> r is Finished,
            self@.len() > 1 ==> r is Error && r->Error_0@ == (ErrorView {
                error_type: ErrorType::ParseErr,
                ..spec_error_at(
                    "Expected the end of the statement"@,
                    self@[1].token.line,
                    self@[1].token.column,
                    self@[1].token.source_file,
                )
            }),
    {
        if self.content.len() > 1 {
            let mut e = ErrorLox::from_ast_node(
                &self.content[1],
                "Expected the end of the statement",
            );
            e.set_error_type(ErrorType::ParseErr);
            return ParseState::Error(e);
        }
        ParseState::Finished
    }

    /// Matches the nodes from `index` on against `patterns`, one set of
    /// admissible classifications for each position. The position
    /// `key_stmt_idx` anchors the match: where it fails, the pattern does not
    /// apply here; where it holds, every other position is owed.
    #[verifier::rlimit(40)]
    pub fn match_ast_pattern(
        &self,
        index: usize,
        patterns: &[Vec<AST_Type>],
        key_stmt_idx: usize,
    ) -> (r: PatternMatchingRes)
        requires
            key_stmt_idx < patterns@.len(),
        ensures
            r == spec_match_ast_pattern(
                self@,
                index as int,
                pattern_sets(patterns@),
                key_stmt_idx as int,
            ),
            r == PatternMatchingRes::Matched <==> (forall|i: int|
                0 <= i < patterns@.len() ==> spec_position_matches(
                    self@,
                    index as int,
                    pattern_sets(patterns@),
                    i,
                )),
            r == PatternMatchingRes::Nomatch <==> !spec_position_matches(
                self@,
                index as int,
                pattern_sets(patterns@),
                key_stmt_idx as int,
            ),
            forall|p: usize|
                r == PatternMatchingRes::FailedAt(p) <==> #[trigger] spec_fails_at(
                    self@,
                    index as int,
                    pattern_sets(patterns@),
                    key_stmt_idx as int,
                    p as int,
                ),
    {
        let pattern_length = patterns.len();
        proof {
            lemma_match_ast_pattern_outcomes(
                self@,
                index as int,
                pattern_sets(patterns@),
                key_stmt_idx as int,
            );
            lemma_first_mismatch(self@, index as int, pattern_sets(patterns@), 0);
        }
        if index >= self.content.len() || key_stmt_idx >= self.content.len() - index
            || !self.content[index + key_stmt_idx].belongs_to_AST_type(
            patterns[key_stmt_idx].as_slice(),
        ) {
            return PatternMatchingRes::Nomatch;
        }
        assert(spec_position_matches(
            self@,
            index as int,
            pattern_sets(patterns@),
            key_stmt_idx as int,
        ));
        let mut i: usize = 0;
        while i < pattern_length
            invariant
                i <= patterns@.len(),
                pattern_length == patterns@.len(),
                key_stmt_idx < patterns@.len(),
                index < self.content@.len(),
                spec_position_matches(
                    self@,
                    index as int,
                    pattern_sets(patterns@),
                    key_stmt_idx as int,
                ),
                spec_first_mismatch(self@, index as int, pattern_sets(patterns@), 0)
                    == spec_first_mismatch(self@, index as int, pattern_sets(patterns@), i as int),
            decreases patterns@.len() - i,
        {
            if i >= self.content.len() - index || !self.content[i + index].belongs_to_AST_type(
                patterns[i].as_slice(),
            ) {
                proof {
                    lemma_match_ast_pattern_outcomes(
                        self@,
                        index as int,
                        pattern_sets(patterns@),
                        key_stmt_idx as int,
                    );
                }
                return PatternMatchingRes::FailedAt(i);
            }
            assert(spec_position_matches(self@, index as int, pattern_sets(patterns@), i as int));
            i += 1;
        }
        PatternMatchingRes::Matched
    }

    /// Checks that there is a node at `i` and that `types` admits it. The
    /// error points at that node, or at the last node where the run ends
    /// before `i`; its description ends in `err_info`.
    pub fn error_handle_tree_i_is_in_types(
        &self,
        i: usize,
        types: &[AST_Type],
        err_info: &str,
    ) -> (r: Result<(), ErrorLox>)
        requires
            self@.len() > 0,
        ensures
            i < self@.len() && types@.contains(self@[i as int].ast_type) ==> r is Ok,
            i >= self@.len() ==> r is Err && r->Err_0@ == spec_error_at(
                "Expected another node, found nothing. "@ + err_info@,
                self@.last().token.line,
                self@.last().token.column,
                self@.last().token.source_file,
            ),
            i < self@.len() && !types@.contains(self@[i as int].ast_type) ==> r is Err
                && r->Err_0@ == spec_error_at(
                "Expected a node of another kind. "@ + err_info@,
                self@[i as int].token.line,
                self@[i as int].token.column,
                self@[i as int].token.source_file,
            ),
    {
        let length = self.content.len();
        if i > length - 1 {
            let mut message = String::from_str("Expected another node, found nothing. ");
            message.append(err_info);
            return Err(ErrorLox::from_ast_node(&self.content[length - 1], message.as_str()));
        }
        if !self.content[i].belongs_to_AST_type(types) {
            let mut message = String::from_str("Expected a node of another kind. ");
            message.append(err_info);
            return Err(ErrorLox::from_ast_node(&self.content[i], message.as_str()));
        }
        Ok(())
    }

    /// Takes out the statement separators that stand in a row from `idx`
    /// on, but never the last node of the run, and says how many went.
    pub fn delete_consec_stmt_sep_from_idx_inclusive(&mut self, idx: usize) -> (r: usize)
        ensures
            final(self)@ == spec_delete_consec_stmt_sep(old(self)@, idx as int),
            r == old(self)@.len() - final(self)@.len(),
    {
        let init_len = self.content.len();
        let mut going = true;
        while going
            invariant
                spec_delete_consec_stmt_sep(self@, idx as int) == spec_delete_consec_stmt_sep(
                    old(self)@,
                    idx as int,
                ),
                init_len == old(self)@.len(),
                self.content@.len() <= init_len,
                !going ==> spec_delete_consec_stmt_sep(self@, idx as int) == self@,
            decreases self@.len(), going as int,
        {
            if idx < usize::MAX && idx + 1 < self.content.len() && self.content[idx].ast_type
                == AST_Type::Unparsed(TokenType::STMT_SEP) {
                assert(spec_is_stmt_sep(self@[idx as int]));
                let _ = self.content.remove(idx);
            } else {
                going = false;
            }
        }
        init_len - self.content.len()
    }

    /// Matches the nodes from `index` on against `patterns` taken
    /// cyclically, for as long as they match. Statement separators that
    /// follow a matched node are taken out of the run. Returns the offset of
    /// the last node that matched, and how many separators went.
    #[verifier::rlimit(40)]
    pub fn match_ast_repetitive_pattern(&mut self, index: usize, patterns: &[Vec<AST_Type>]) -> (r:
        (RepetitivePatternMatchingRes, usize))
        requires
            patterns@.len() > 0,
        ensures
            final(self)@ == spec_repetitive_from(
                old(self)@,
                index as int,
                pattern_sets(patterns@),
                0,
            ).0,
            r.0 == spec_repetitive_res(
                spec_repetitive_from(old(self)@, index as int, pattern_sets(patterns@), 0).1,
            ),
            r.1 == old(self)@.len() - final(self)@.len(),
    {
        let mut matched_num: usize = 0;
        let pattern_length = patterns.len();
        let init_len = self.content.len();
        let ghost init = self@;
        while matched_num < usize::MAX - index && index + matched_num < self.content.len()
            && self.content[index + matched_num].belongs_to_AST_type(
            patterns[matched_num % pattern_length].as_slice(),
        )
            invariant
                pattern_length == patterns@.len(),
                pattern_length > 0,
                init == old(self)@,
                init_len == init.len(),
                self@.len() <= init.len(),
                matched_num == 0 || index + matched_num <= self@.len(),
                spec_repetitive_from(
                    self@,
                    index as int,
                    pattern_sets(patterns@),
                    matched_num as int,
                ) == spec_repetitive_from(init, index as int, pattern_sets(patterns@), 0),
            decreases self@.len() - index - matched_num,
        {
            proof {
                lemma_delete_consec_stmt_sep_len(self@, index + matched_num + 1);
                assert(pattern_sets(patterns@)[(matched_num % pattern_length) as int].contains(
                    self@[index + matched_num].ast_type,
                ));
            }
            matched_num += 1;
            let _ = self.delete_consec_stmt_sep_from_idx_inclusive(index + matched_num);
        }
        assert(!(index + matched_num < self@.len() && pattern_sets(patterns@)[matched_num as int % (
        pattern_length as int)].contains(self@[index + matched_num].ast_type)));
        let deleted: usize = init_len - self.content.len();
        if matched_num == 0 {
            return (RepetitivePatternMatchingRes::Nomatch, deleted);
        }
        (RepetitivePatternMatchingRes::MatchUntil(matched_num - 1), deleted)
    }
}

} // verus!
