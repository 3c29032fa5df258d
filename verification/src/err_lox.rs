//! Diagnostics: what went wrong, of which kind, and where in the source.
use crate::ast_node::AST_Node;
use crate::token::Token;
use vstd::prelude::*;

verus! {

#[derive(Clone, Copy, Debug, PartialEq, Eq, Structural)]
pub enum ErrorType {
    ParseErr,
    ScanErr,
    /// An opening delimiter without its closing partner: more input may
    /// complete it.
    UnterminatedDelimiter,
    /// An evaluation nested deeper than the budget it was given allows.
    DepthExhausted,
    UnKnown,
}

/// Where the text of a diagnostic came from.
#[derive(Debug)]
pub enum Source {
    NoSource,
    FileName(String),
    Stdin,
}

pub enum SourceView {
    NoSource,
    FileName(Seq<char>),
    Stdin,
}

impl View for Source {
    type V = SourceView;

    open spec fn view(&self) -> SourceView {
        match self {
            Source::NoSource => SourceView::NoSource,
            Source::FileName(name) => SourceView::FileName(name@),
            Source::Stdin => SourceView::Stdin,
        }
    }
}

impl Source {
    pub fn from_filename(filename: &str) -> (r: Source)
        ensures
            r@ == SourceView::FileName(filename@),
    {
        Source::FileName(String::from_str(filename))
    }

    /// An independent copy.
    pub fn duplicate(&self) -> (r: Source)
        ensures
            r@ == self@,
    {
        match self {
            Source::NoSource => Source::NoSource,
            Source::FileName(name) => Source::FileName(name.clone()),
            Source::Stdin => Source::Stdin,
        }
    }
}

/// A diagnostic with the position it points at.
#[derive(Debug)]
pub struct ErrorLox {
    pub description: String,
    pub error_type: ErrorType,
    pub row: usize,
    pub column: usize,
    pub source: Source,
}

pub struct ErrorView {
    pub description: Seq<char>,
    pub error_type: ErrorType,
    pub row: usize,
    pub column: usize,
    pub source: SourceView,
}

impl View for ErrorLox {
    type V = ErrorView;

    open spec fn view(&self) -> ErrorView {
        ErrorView {
            description: self.description@,
            error_type: self.error_type,
            row: self.row,
            column: self.column,
            source: self.source@,
        }
    }
}

/// The diagnostic of unknown kind that points at `row`, `column` of the
/// text named `filename`.
pub open spec fn spec_error_at(
    description: Seq<char>,
    row: usize,
    column: usize,
    filename: Seq<char>,
) -> ErrorView {
    ErrorView {
        description,
        error_type: ErrorType::UnKnown,
        row,
        column,
        source: SourceView::FileName(filename),
    }
}

/// The diagnostic that points at no source at all.
pub open spec fn spec_error_nowhere(description: Seq<char>) -> ErrorView {
    ErrorView {
        description,
        error_type: ErrorType::UnKnown,
        row: 0,
        column: 0,
        source: SourceView::NoSource,
    }
}

impl ErrorLox {
    pub fn from_filename(description: &str, row: usize, column: usize, filename: &str) -> (r:
        ErrorLox)
        ensures
            r@ == spec_error_at(description@, row, column, filename@),
    {
        ErrorLox {
            description: String::from_str(description),
            error_type: ErrorType::UnKnown,
            row,
            column,
            source: Source::from_filename(filename),
        }
    }

    /// The diagnostic that points at `token`.
    pub fn from_token(token: &Token, description: &str) -> (r: ErrorLox)
        ensures
            r@ == spec_error_at(
                description@,
                token@.line,
                token@.column,
                token@.source_file,
            ),
    {
        ErrorLox {
            description: String::from_str(description),
            error_type: ErrorType::UnKnown,
            row: token.line,
            column: token.column,
            source: Source::FileName(token.source_file.clone()),
        }
    }

    /// The diagnostic that points at the token of `node`.
    pub fn from_ast_node(node: &AST_Node, description: &str) -> (r: ErrorLox)
        ensures
            r@ == spec_error_at(
                description@,
                node@.token.line,
                node@.token.column,
                node@.token.source_file,
            ),
    {
        broadcast use crate::ast_node::group_views;

        ErrorLox::from_token(&node.token, description)
    }

    /// The diagnostic that points at nothing.
    pub fn nowhere(description: &str) -> (r: ErrorLox)
        ensures
            r@ == spec_error_nowhere(description@),
    {
        ErrorLox {
            description: String::from_str(description),
            error_type: ErrorType::UnKnown,
            row: 0,
            column: 0,
            source: Source::NoSource,
        }
    }

    pub fn set_error_type(&mut self, error_type: ErrorType)
        ensures
            final(self)@ == (ErrorView { error_type, ..old(self)@ }),
    {
        self.error_type = error_type;
    }

    pub fn get_error_type(&self) -> (r: ErrorType)
        ensures
            r == self@.error_type,
    {
        self.error_type
    }

    pub fn get_description(&self) -> (r: &String)
        ensures
            r@ == self@.description,
    {
        &self.description
    }

    pub fn get_row(&self) -> (r: usize)
        ensures
            r == self@.row,
    {
        self.row
    }

    pub fn get_column(&self) -> (r: usize)
        ensures
            r == self@.column,
    {
        self.column
    }

    pub fn get_source(&self) -> (r: &Source)
        ensures
            r@ == self@.source,
    {
        &self.source
    }
}

} // verus!
