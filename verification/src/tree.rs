//! A binary expression tree over tokens, with the four basic operations.
use crate::err_lox::{spec_error_at, ErrorLox, ErrorView};
use crate::runtime::lox_variable::Number;
use crate::runtime::number::{
    ask, host_answers, host_ready, AnswerView, Answers, NumberAnswer, NumberOp, NumberRequest,
    RequestView,
};
use crate::token::{Token, TokenType, TokenView};
use vstd::prelude::*;

verus! {

/// A node with a token and up to two children.
#[derive(Debug)]
pub struct Tree {
    pub token: Token,
    pub left: Option<Box<Tree>>,
    pub right: Option<Box<Tree>>,
}

pub struct TreeView {
    pub token: TokenView,
    pub left: Option<Box<TreeView>>,
    pub right: Option<Box<TreeView>>,
}

/// The mathematical value of a tree.
pub open spec fn tree_view(t: Tree) -> TreeView
    decreases t,
{
    TreeView {
        token: t.token@,
        left: match t.left {
            Some(child) => Some(Box::new(tree_view(*child))),
            None => None,
        },
        right: match t.right {
            Some(child) => Some(Box::new(tree_view(*child))),
            None => None,
        },
    }
}

impl View for Tree {
    type V = TreeView;

    open spec fn view(&self) -> TreeView {
        tree_view(*self)
    }
}

pub broadcast proof fn lemma_tree_unfold(t: Tree)
    ensures
        #[trigger] t@ == (TreeView {
            token: t.token@,
            left: match t.left {
                Some(child) => Some(Box::new(tree_view(*child))),
                None => None,
            },
            right: match t.right {
                Some(child) => Some(Box::new(tree_view(*child))),
                None => None,
            },
        }),
{
}

/// The arithmetic operation that a token stands for.
pub open spec fn spec_tree_operation(kind: TokenType) -> Option<NumberOp> {
    match kind {
        TokenType::PLUS => Some(NumberOp::Add),
        TokenType::MINUS => Some(NumberOp::Subtract),
        TokenType::STAR => Some(NumberOp::Multiply),
        TokenType::SLASH => Some(NumberOp::Divide),
        _ => None,
    }
}

/// The diagnostic that points at a token.
pub open spec fn spec_token_error(token: TokenView, description: Seq<char>) -> ErrorView {
    spec_error_at(description, token.line, token.column, token.source_file)
}

/// The value of a tree: a number literal denotes its number; an operator
/// applies to the values of its two children, the left one first; any
/// other token is worth zero.
pub open spec fn spec_tree_eval(answers: Answers, tree: TreeView) -> Result<Number, ErrorView>
    decreases tree,
{
    if tree.token.token_type == TokenType::NUMBER {
        match answers(RequestView::Parse(tree.token.lexeme)) {
            AnswerView::Number(n) => Ok(n),
            _ => Err(spec_token_error(tree.token, "Failed to parse NUM!"@)),
        }
    } else {
        match spec_tree_operation(tree.token.token_type) {
            None => Ok(Number { bits: 0 }),
            Some(op) => if tree.left is None || tree.right is None {
                Err(spec_token_error(tree.token, "CHILD IS NODE when evaluating!"@))
            } else {
                match spec_tree_eval(answers, *tree.left->Some_0) {
                    Err(e) => Err(e),
                    Ok(left) => match spec_tree_eval(answers, *tree.right->Some_0) {
                        Err(e) => Err(e),
                        Ok(right) => match answers(RequestView::Binary(op, left, right)) {
                            AnswerView::Number(n) => Ok(n),
                            _ => Err(spec_token_error(tree.token, "The host did not compute"@)),
                        },
                    },
                }
            },
        }
    }
}

/// The height of a tree: 0 for a node without children.
pub open spec fn spec_tree_height(tree: TreeView) -> nat
    decreases tree,
{
    let left = match tree.left {
        Some(child) => spec_tree_height(*child) + 1,
        None => 0,
    };
    let right = match tree.right {
        Some(child) => spec_tree_height(*child) + 1,
        None => 0,
    };
    if left > right {
        left
    } else {
        right
    }
}

/// Whether a tree is full and of height `level`: a node at height 0 has
/// no children, and every other node has two, each one level lower.
pub open spec fn spec_tree_full(tree: TreeView, level: nat) -> bool
    decreases level,
{
    if level == 0 {
        tree.left is None && tree.right is None
    } else {
        &&& tree.left matches Some(child) && spec_tree_full(*child, (level - 1) as nat)
        &&& tree.right matches Some(child) && spec_tree_full(*child, (level - 1) as nat)
    }
}

impl Tree {
    pub fn new(token: Token, left: Option<Box<Tree>>, right: Option<Box<Tree>>) -> (r: Tree)
        ensures
            r == (Tree { token, left, right }),
    {
        Tree { token, left, right }
    }

    pub fn new_terminal_node(token: Token) -> (r: Tree)
        ensures
            r@ == (TreeView { token: token@, left: None, right: None }),
    {
        Tree { token, left: None, right: None }
    }

    pub fn from_token(token: Token) -> (r: Tree)
        ensures
            r@ == (TreeView { token: token@, left: None, right: None }),
    {
        Tree { token, left: None, right: None }
    }

    /// A full binary tree of height `level` with random tokens.
    pub fn random_expr(level: usize) -> (r: Tree)
        ensures
            spec_tree_height(r@) == level,
            spec_tree_full(r@, level as nat),
        decreases level,
    {
        broadcast use lemma_tree_unfold;

        if level == 0 {
            Tree { token: Token::random(), left: None, right: None }
        } else {
            let left = Tree::random_expr(level - 1);
            let right = Tree::random_expr(level - 1);
            Tree {
                token: Token::random(),
                left: Some(Box::new(left)),
                right: Some(Box::new(right)),
            }
        }
    }

    /// The value of the tree, computed by the host.
    pub fn eval<H: Fn(NumberRequest) -> NumberAnswer>(&self, host: &H) -> (r: Result<
        Number,
        ErrorLox,
    >)
        requires
            host_ready(host),
        ensures
            match spec_tree_eval(host_answers(host), self@) {
                Ok(n) => r == Ok::<Number, ErrorLox>(n),
                Err(e) => r is Err && r->Err_0@ == e,
            },
        decreases self,
    {
        broadcast use lemma_tree_unfold;

        if self.token.token_type == TokenType::NUMBER {
            return match ask(host, NumberRequest::Parse(self.token.lexeme.clone())) {
                NumberAnswer::Number(n) => Ok(n),
                _ => Err(ErrorLox::from_token(&self.token, "Failed to parse NUM!")),
            };
        }
        let op = match self.token.token_type {
            TokenType::PLUS => NumberOp::Add,
            TokenType::MINUS => NumberOp::Subtract,
            TokenType::STAR => NumberOp::Multiply,
            TokenType::SLASH => NumberOp::Divide,
            _ => {
                return Ok(Number { bits: 0 });
            },
        };
        let (left, right) = match (&self.left, &self.right) {
            (Some(left), Some(right)) => (left, right),
            _ => {
                return Err(ErrorLox::from_token(&self.token, "CHILD IS NODE when evaluating!"));
            },
        };
        let left = match left.eval(host) {
            Ok(left) => left,
            Err(e) => {
                return Err(e);
            },
        };
        let right = match right.eval(host) {
            Ok(right) => right,
            Err(e) => {
                return Err(e);
            },
        };
        match ask(host, NumberRequest::Binary(op, left, right)) {
            NumberAnswer::Number(n) => Ok(n),
            _ => Err(ErrorLox::from_token(&self.token, "The host did not compute")),
        }
    }
}

} // verus!
