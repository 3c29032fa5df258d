//! The abstract syntax tree: a node carries a classification, the token it
//! grew from and its children in order.
use crate::token::{random_in_range, spec_dummy_token, Token, TokenType, TokenView};
use vstd::prelude::*;

verus! {

#[derive(Clone, Copy, Debug, PartialEq, Eq, Structural)]
pub enum ExprType {
    Normal,
    Paren,
    Negated,
    Function,
}

#[derive(Clone, Copy, Debug, PartialEq, Eq, Structural)]
pub enum StmtType {
    Normal,
    Braced,
    Assignment,
    Declaration,
    Compound,
    If,
    Elseif,
    Else,
    While,
    PlusEqual,
    MinusEqual,
    StarEqual,
    SlashEqual,
    PercentEqual,
    FunctionDef,
}

/// The syntactic role of a node. A node starts out as `Expr`, `Identifier`
/// or `Unparsed` and is reclassified as the parser folds it.
#[allow(non_camel_case_types)]
#[derive(Clone, Copy, Debug, PartialEq, Eq, Structural)]
pub enum AST_Type {
    Unfinished,
    Stmt(StmtType),
    PotentialStmt,
    Expr(ExprType),
    Identifier,
    Unknown,
    Unparsed(TokenType),
    Tuple,
}

/// Every expression classification.
pub open spec fn spec_all_expr() -> Seq<AST_Type> {
    seq![
        AST_Type::Expr(ExprType::Normal),
        AST_Type::Expr(ExprType::Paren),
        AST_Type::Expr(ExprType::Negated),
        AST_Type::Expr(ExprType::Function),
    ]
}

/// Every classification of a statement that can stand on its own.
pub open spec fn spec_all_stmt() -> Seq<AST_Type> {
    seq![
        AST_Type::Stmt(StmtType::Normal),
        AST_Type::Stmt(StmtType::Braced),
        AST_Type::Stmt(StmtType::Assignment),
        AST_Type::Stmt(StmtType::Declaration),
        AST_Type::Stmt(StmtType::Compound),
        AST_Type::Stmt(StmtType::If),
        AST_Type::Stmt(StmtType::While),
        AST_Type::Stmt(StmtType::PlusEqual),
        AST_Type::Stmt(StmtType::MinusEqual),
        AST_Type::Stmt(StmtType::StarEqual),
        AST_Type::Stmt(StmtType::SlashEqual),
        AST_Type::Stmt(StmtType::PercentEqual),
        AST_Type::Stmt(StmtType::FunctionDef),
    ]
}

/// The classification a token's node starts with: numbers and truth
/// values are expressions, names are identifiers, the rest is deferred.
pub open spec fn spec_initial_type(kind: TokenType) -> AST_Type {
    match kind {
        TokenType::NUMBER | TokenType::TRUE | TokenType::FALSE => AST_Type::Expr(ExprType::Normal),
        TokenType::IDENTIFIER => AST_Type::Identifier,
        other => AST_Type::Unparsed(other),
    }
}

impl AST_Type {
    pub fn get_all_expr() -> (r: Vec<AST_Type>)
        ensures
            r@ == spec_all_expr(),
    {
        vec![
            AST_Type::Expr(ExprType::Normal),
            AST_Type::Expr(ExprType::Paren),
            AST_Type::Expr(ExprType::Negated),
            AST_Type::Expr(ExprType::Function),
        ]
    }

    pub fn get_all_stmt() -> (r: Vec<AST_Type>)
        ensures
            r@ == spec_all_stmt(),
    {
        vec![
            AST_Type::Stmt(StmtType::Normal),
            AST_Type::Stmt(StmtType::Braced),
            AST_Type::Stmt(StmtType::Assignment),
            AST_Type::Stmt(StmtType::Declaration),
            AST_Type::Stmt(StmtType::Compound),
            AST_Type::Stmt(StmtType::If),
            AST_Type::Stmt(StmtType::While),
            AST_Type::Stmt(StmtType::PlusEqual),
            AST_Type::Stmt(StmtType::MinusEqual),
            AST_Type::Stmt(StmtType::StarEqual),
            AST_Type::Stmt(StmtType::SlashEqual),
            AST_Type::Stmt(StmtType::PercentEqual),
            AST_Type::Stmt(StmtType::FunctionDef),
        ]
    }

    /// The classification that the node of `token` starts with.
    pub fn from_token(token: &Token) -> (r: AST_Type)
        ensures
            r == spec_initial_type(token@.token_type),
    {
        match token.token_type {
            TokenType::NUMBER => AST_Type::Expr(ExprType::Normal),
            TokenType::IDENTIFIER => AST_Type::Identifier,
            TokenType::TRUE | TokenType::FALSE => AST_Type::Expr(ExprType::Normal),
            catch_all => AST_Type::Unparsed(catch_all),
        }
    }

    pub fn is_stmt(&self) -> (r: bool)
        ensures
            r == (*self is Stmt),
    {
        match self {
            AST_Type::Stmt(_) => true,
            _ => false,
        }
    }

    pub fn is_expr(&self) -> (r: bool)
        ensures
            r == (*self is Expr),
    {
        match self {
            AST_Type::Expr(_) => true,
            _ => false,
        }
    }

    /// Whether `self` occurs in `types`.
    pub fn belongs_to(&self, types: &[AST_Type]) -> (r: bool)
        ensures
            r == types@.contains(*self),
    {
        let mut i: usize = 0;
        while i < types.len()
            invariant
                i <= types@.len(),
                forall|j: int| 0 <= j < i ==> types@[j] != *self,
            decreases types@.len() - i,
        {
            if types[i] == *self {
                return true;
            }
            i += 1;
        }
        false
    }
}

impl TokenType {
    /// Whether `self` occurs in `types`.
    pub fn belongs_to(&self, types: &[TokenType]) -> (r: bool)
        ensures
            r == types@.contains(*self),
    {
        let mut i: usize = 0;
        while i < types.len()
            invariant
                i <= types@.len(),
                forall|j: int| 0 <= j < i ==> types@[j] != *self,
            decreases types@.len() - i,
        {
            if types[i] == *self {
                return true;
            }
            i += 1;
        }
        false
    }
}

/// A node of the syntax tree. It owns its children.
#[allow(non_camel_case_types)]
#[derive(Debug)]
pub struct AST_Node {
    pub ast_type: AST_Type,
    pub token: Token,
    pub children: Vec<AST_Node>,
}

/// The mathematical value of a node: a finite tree.
pub struct NodeView {
    pub ast_type: AST_Type,
    pub token: TokenView,
    pub children: Seq<NodeView>,
}

/// The values of a run of nodes, in order.
pub open spec fn views(s: Seq<AST_Node>) -> Seq<NodeView>
    decreases s,
{
    Seq::new(
        s.len(),
        |i: int|
            if 0 <= i < s.len() {
                s[i].view()
            } else {
                arbitrary()
            },
    )
}

impl View for AST_Node {
    type V = NodeView;

    open spec fn view(&self) -> NodeView
        decreases self,
    {
        NodeView { ast_type: self.ast_type, token: self.token@, children: views(self.children@) }
    }
}

pub broadcast proof fn lemma_view_unfold(n: AST_Node)
    ensures
        #[trigger] n@ == (NodeView {
            ast_type: n.ast_type,
            token: n.token@,
            children: views(n.children@),
        }),
{
}

pub broadcast proof fn lemma_views_len(s: Seq<AST_Node>)
    ensures
        #[trigger] views(s).len() == s.len(),
{
}

pub broadcast proof fn lemma_views_index(s: Seq<AST_Node>, i: int)
    requires
        0 <= i < s.len(),
    ensures
        #[trigger] views(s)[i] == s[i]@,
{
}

pub broadcast proof fn lemma_views_push(s: Seq<AST_Node>, n: AST_Node)
    ensures
        #[trigger] views(s.push(n)) == views(s).push(n@),
{
    assert(views(s.push(n)) =~= views(s).push(n@));
}

pub broadcast proof fn lemma_views_remove(s: Seq<AST_Node>, i: int)
    requires
        0 <= i < s.len(),
    ensures
        #[trigger] views(s.remove(i)) == views(s).remove(i),
{
    assert(views(s.remove(i)) =~= views(s).remove(i));
}

pub broadcast proof fn lemma_views_insert(s: Seq<AST_Node>, i: int, n: AST_Node)
    requires
        0 <= i <= s.len(),
    ensures
        #[trigger] views(s.insert(i, n)) == views(s).insert(i, n@),
{
    assert(views(s.insert(i, n)) =~= views(s).insert(i, n@));
}

pub broadcast proof fn lemma_views_update(s: Seq<AST_Node>, i: int, n: AST_Node)
    requires
        0 <= i < s.len(),
    ensures
        #[trigger] views(s.update(i, n)) == views(s).update(i, n@),
{
    assert(views(s.update(i, n)) =~= views(s).update(i, n@));
}

pub broadcast proof fn lemma_views_subrange(s: Seq<AST_Node>, i: int, j: int)
    requires
        0 <= i <= j <= s.len(),
    ensures
        #[trigger] views(s.subrange(i, j)) == views(s).subrange(i, j),
{
    assert(views(s.subrange(i, j)) =~= views(s).subrange(i, j));
}

pub broadcast proof fn lemma_views_add(s: Seq<AST_Node>, t: Seq<AST_Node>)
    ensures
        #[trigger] views(s + t) == views(s) + views(t),
{
    assert(views(s + t) =~= views(s) + views(t));
}

pub broadcast proof fn lemma_views_empty()
    ensures
        #[trigger] views(Seq::<AST_Node>::empty()) == Seq::<NodeView>::empty(),
{
    assert(views(Seq::<AST_Node>::empty()) =~= Seq::<NodeView>::empty());
}

pub broadcast group group_views {
    lemma_view_unfold,
    lemma_views_len,
    lemma_views_index,
    lemma_views_push,
    lemma_views_remove,
    lemma_views_insert,
    lemma_views_update,
    lemma_views_subrange,
    lemma_views_add,
    lemma_views_empty,
}

/// The height of a tree: 0 for a leaf, else one more than its tallest child.
pub open spec fn spec_level(n: NodeView) -> nat
    decreases n, 1nat,
{
    if n.children.len() == 0 {
        0
    } else {
        spec_max_level(n.children) + 1
    }
}

/// The greatest height among a run of trees, 0 for an empty run.
pub open spec fn spec_max_level(s: Seq<NodeView>) -> nat
    decreases s, 0nat,
{
    if s.len() == 0 {
        0
    } else {
        let rest = spec_max_level(s.drop_last());
        let last = spec_level(s.last());
        if last > rest {
            last
        } else {
            rest
        }
    }
}

/// The number of leaves below a node, the node itself counted if it is one.
pub open spec fn spec_leaves(n: NodeView) -> nat
    decreases n, 1nat,
{
    if n.children.len() == 0 {
        1
    } else {
        spec_leaves_sum(n.children)
    }
}

/// The number of leaves in a run of trees.
pub open spec fn spec_leaves_sum(s: Seq<NodeView>) -> nat
    decreases s, 0nat,
{
    if s.len() == 0 {
        0
    } else {
        spec_leaves_sum(s.drop_last()) + spec_leaves(s.last())
    }
}

/// A leaf with the given classification and token.
pub open spec fn spec_leaf(ast_type: AST_Type, token: TokenView) -> NodeView {
    NodeView { ast_type, token, children: Seq::empty() }
}

/// Whether a tree has the shape of a random tree of height `level`: every
/// node has the classification `Unknown` and a token without position
/// whose text is `DUMMY`; a node at height 0 is a leaf, and every other
/// node has between one and three children, each one level lower.
pub open spec fn spec_random_shape(n: NodeView, level: nat) -> bool
    decreases level,
{
    &&& n.ast_type == AST_Type::Unknown
    &&& n.token.lexeme == "DUMMY"@
    &&& n.token.line == 0
    &&& n.token.column == 0
    &&& if level == 0 {
        n.children.len() == 0
    } else {
        &&& 1 <= n.children.len() <= 3
        &&& forall|i: int|
            0 <= i < n.children.len() ==> spec_random_shape(
                #[trigger] n.children[i],
                (level - 1) as nat,
            )
    }
}

impl AST_Node {
    pub fn new(ast_type: AST_Type, token: Token) -> (r: AST_Node)
        ensures
            r@ == spec_leaf(ast_type, token@),
    {
        broadcast use group_views;

        AST_Node { ast_type, token, children: Vec::new() }
    }

    /// A leaf that stands for no source text.
    pub fn dummy_node(ast_type: AST_Type) -> (r: AST_Node)
        ensures
            r@ == spec_leaf(ast_type, spec_dummy_token()),
    {
        AST_Node::new(ast_type, Token::dummy())
    }

    /// The leaf that a token starts out as.
    pub fn from_token(token: Token) -> (r: AST_Node)
        ensures
            r@ == spec_leaf(spec_initial_type(token@.token_type), token@),
    {
        let ast_type = AST_Type::from_token(&token);
        AST_Node::new(ast_type, token)
    }

    pub fn is_stmt(&self) -> (r: bool)
        ensures
            r == (self@.ast_type is Stmt),
    {
        self.ast_type.is_stmt()
    }

    pub fn is_compound_stmt(&self) -> (r: bool)
        ensures
            r == (self@.ast_type == AST_Type::Stmt(StmtType::Compound)),
    {
        self.ast_type == AST_Type::Stmt(StmtType::Compound)
    }

    pub fn is_expr(&self) -> (r: bool)
        ensures
            r == (self@.ast_type is Expr),
    {
        self.ast_type.is_expr()
    }

    #[allow(non_snake_case)]
    pub fn get_AST_Type(&self) -> (r: AST_Type)
        ensures
            r == self@.ast_type,
    {
        self.ast_type
    }

    #[allow(non_snake_case)]
    pub fn set_AST_Type(&mut self, new_type: AST_Type)
        ensures
            final(self)@ == (NodeView { ast_type: new_type, ..old(self)@ }),
    {
        self.ast_type = new_type;
    }

    pub fn get_token(&self) -> (r: &Token)
        ensures
            r@ == self@.token,
    {
        &self.token
    }

    pub fn get_token_type(&self) -> (r: TokenType)
        ensures
            r == self@.token.token_type,
    {
        self.token.token_type
    }

    /// Whether the node's classification occurs in `types`.
    #[allow(non_snake_case)]
    pub fn belongs_to_AST_type(&self, types: &[AST_Type]) -> (r: bool)
        ensures
            r == types@.contains(self@.ast_type),
    {
        self.ast_type.belongs_to(types)
    }

    /// Whether the kind of the node's token occurs in `types`.
    #[allow(non_snake_case)]
    pub fn belongs_to_Token_type(&self, types: &[TokenType]) -> (r: bool)
        ensures
            r == types@.contains(self@.token.token_type),
    {
        self.token.token_type.belongs_to(types)
    }

    pub fn append_child(&mut self, node: AST_Node)
        ensures
            final(self)@ == (NodeView {
                children: old(self)@.children.push(node@),
                ..old(self)@
            }),
    {
        broadcast use group_views;

        self.children.push(node);
    }

    /// Appends `nodes`, in order, behind the children the node already has.
    pub fn append_children(&mut self, nodes: Vec<AST_Node>)
        ensures
            final(self)@ == (NodeView {
                children: old(self)@.children + views(nodes@),
                ..old(self)@
            }),
    {
        broadcast use group_views;

        let mut nodes = nodes;
        self.children.append(&mut nodes);
    }

    pub fn has_children(&self) -> (r: bool)
        ensures
            r == (self@.children.len() > 0),
    {
        broadcast use group_views;

        self.children.len() > 0
    }

    pub fn get_num_of_children(&self) -> (r: usize)
        ensures
            r == self@.children.len(),
    {
        broadcast use group_views;

        self.children.len()
    }

    pub fn get_children(&self) -> (r: &Vec<AST_Node>)
        ensures
            views(r@) == self@.children,
    {
        &self.children
    }

    /// An independent copy of the whole tree.
    pub fn duplicate(&self) -> (r: AST_Node)
        ensures
            r@ == self@,
        decreases self,
    {
        broadcast use group_views;

        let mut children: Vec<AST_Node> = Vec::new();
        let mut i: usize = 0;
        while i < self.children.len()
            invariant
                i <= self.children@.len(),
                views(children@) == views(self.children@).subrange(0, i as int),
            decreases self.children@.len() - i,
        {
            let child = self.children[i].duplicate();
            children.push(child);
            assert(views(self.children@).subrange(0, i + 1) =~= views(self.children@).subrange(
                0,
                i as int,
            ).push(self.children@[i as int]@));
            i += 1;
        }
        assert(views(self.children@).subrange(0, i as int) =~= views(self.children@));
        AST_Node { ast_type: self.ast_type, token: self.token.duplicate(), children }
    }

    /// The height of the tree below the node.
    pub fn get_level(&self) -> (r: usize)
        requires
            spec_level(self@) <= usize::MAX,
        ensures
            r == spec_level(self@),
        decreases self,
    {
        broadcast use group_views;

        let mut best: usize = 0;
        let mut i: usize = 0;
        let ghost kids = self@.children;
        proof {
            lemma_max_level_bounds(kids, kids.len() as int);
            assert(kids.subrange(0, 0) =~= Seq::<NodeView>::empty());
        }
        while i < self.children.len()
            invariant
                kids == views(self.children@),
                i <= kids.len(),
                best == spec_max_level(kids.subrange(0, i as int)),
                spec_max_level(kids) <= usize::MAX,
            decreases kids.len() - i,
        {
            proof {
                lemma_max_level_bounds(kids, i + 1);
                assert(kids.subrange(0, i + 1).drop_last() =~= kids.subrange(0, i as int));
            }
            let level = self.children[i].get_level();
            if level > best {
                best = level;
            }
            i += 1;
        }
        assert(kids.subrange(0, i as int) =~= kids);
        if self.children.len() == 0 {
            0
        } else {
            best + 1
        }
    }

    /// The number of leaves strictly below the node: 0 for a leaf.
    pub fn get_num_of_children_recurse(&self) -> (r: usize)
        requires
            spec_leaves(self@) <= usize::MAX,
        ensures
            r == if self@.children.len() == 0 {
                0
            } else {
                spec_leaves(self@)
            },
    {
        broadcast use group_views;

        if self.children.len() == 0 {
            return 0;
        }
        self.count_leaves()
    }

    /// The number of leaves of the tree, the node itself counted if it is one.
    pub fn count_leaves(&self) -> (r: usize)
        requires
            spec_leaves(self@) <= usize::MAX,
        ensures
            r == spec_leaves(self@),
        decreases self,
    {
        broadcast use group_views;

        if self.children.len() == 0 {
            return 1;
        }
        let mut res: usize = 0;
        let mut i: usize = 0;
        let ghost kids = self@.children;
        proof {
            assert(kids.subrange(0, 0) =~= Seq::<NodeView>::empty());
        }
        while i < self.children.len()
            invariant
                kids == views(self.children@),
                i <= kids.len(),
                res == spec_leaves_sum(kids.subrange(0, i as int)),
                spec_leaves_sum(kids) <= usize::MAX,
            decreases kids.len() - i,
        {
            proof {
                lemma_leaves_sum_bounds(kids, i + 1);
                assert(kids.subrange(0, i + 1).drop_last() =~= kids.subrange(0, i as int));
            }
            let below = self.children[i].count_leaves();
            res = res + below;
            i += 1;
        }
        assert(kids.subrange(0, i as int) =~= kids);
        res
    }

    /// A random tree of height `level` in which every node has between one
    /// and three children, the classification `Unknown` and a random token.
    pub fn random_expr(level: usize) -> (r: AST_Node)
        ensures
            spec_level(r@) == level,
            spec_random_shape(r@, level as nat),
        decreases level,
    {
        broadcast use group_views;

        let mut node = AST_Node::new(AST_Type::Unknown, Token::random());
        if level > 0 {
            let num: usize = random_in_range(1, 4);
            let mut i: usize = 0;
            while i < num
                invariant
                    i <= num,
                    level > 0,
                    1 <= num <= 3,
                    node@.ast_type == AST_Type::Unknown,
                    node@.token.lexeme == "DUMMY"@,
                    node@.token.line == 0,
                    node@.token.column == 0,
                    node@.children.len() == i,
                    forall|j: int|
                        0 <= j < i ==> spec_level(#[trigger] node@.children[j]) == level - 1,
                    forall|j: int|
                        0 <= j < i ==> spec_random_shape(
                            #[trigger] node@.children[j],
                            (level - 1) as nat,
                        ),
                decreases num - i,
            {
                let child = AST_Node::random_expr(level - 1);
                node.append_child(child);
                i += 1;
            }
            proof {
                lemma_max_level_uniform(node@.children, (level - 1) as nat);
            }
        }
        node
    }
}

/// The greatest height of a prefix is at most that of the whole run, and so
/// is the height of each member.
pub proof fn lemma_max_level_bounds(s: Seq<NodeView>, k: int)
    requires
        0 <= k <= s.len(),
    ensures
        spec_max_level(s.subrange(0, k)) <= spec_max_level(s),
        k > 0 ==> spec_level(s[k - 1]) <= spec_max_level(s),
    decreases s.len(),
{
    if k == s.len() {
        assert(s.subrange(0, k) =~= s);
    } else {
        lemma_max_level_bounds(s.drop_last(), k);
        assert(s.drop_last().subrange(0, k) =~= s.subrange(0, k));
    }
}

/// The leaf count of a prefix is at most that of the whole run.
pub proof fn lemma_leaves_sum_bounds(s: Seq<NodeView>, k: int)
    requires
        0 <= k <= s.len(),
    ensures
        spec_leaves_sum(s.subrange(0, k)) <= spec_leaves_sum(s),
    decreases s.len(),
{
    if k == s.len() {
        assert(s.subrange(0, k) =~= s);
    } else {
        lemma_leaves_sum_bounds(s.drop_last(), k);
        assert(s.drop_last().subrange(0, k) =~= s.subrange(0, k));
    }
}

/// A non-empty run of trees that all have height `h` has greatest height `h`.
pub proof fn lemma_max_level_uniform(s: Seq<NodeView>, h: nat)
    requires
        s.len() > 0,
        forall|j: int| 0 <= j < s.len() ==> spec_level(#[trigger] s[j]) == h,
    ensures
        spec_max_level(s) == h,
    decreases s.len(),
{
    if s.len() > 1 {
        lemma_max_level_uniform(s.drop_last(), h);
    } else {
        assert(spec_max_level(s.drop_last()) == 0);
    }
}

} // verus!
