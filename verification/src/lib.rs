//! A tree-walking interpreter for a small dynamically typed scripting
//! language.
//!
//! Source text goes through three stages. The scanner cuts it into
//! tokens. The parser holds the tokens as a run of leaves and rewrites the
//! run in place, pass by pass in the order of precedence, until one tree
//! is left or more input is needed. The evaluator walks the tree against a
//! stack of scopes.
//!
//! Every function states what it returns over the mathematical value of
//! its arguments: the view of a token, of a tree, of a runtime value, of
//! the stack. The parser and the evaluator are each specified by a
//! function on these values, and the code is proved to compute it.
//!
//! Numbers are carried as bit patterns of doubles. Their arithmetic is
//! left to the host of the interpreter, a function from questions about
//! numbers to answers that every evaluating function takes as its first
//! argument.
pub mod ast_node;
pub mod display;
pub mod err_lox;
pub mod parse_tree_unfinished;
pub mod parser;
pub mod parser_properties;
pub mod runtime;
pub mod scanner;
pub mod token;
pub mod tree;
pub mod well_formed;
