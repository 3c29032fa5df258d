//! How tokens, classifications and trees are written as text.
use crate::ast_node::{group_views, views, AST_Node, AST_Type, ExprType, NodeView, StmtType};
use crate::parse_tree_unfinished::ParseTreeUnfinshed;
use crate::runtime::lox_variable::{
    group_values, string_views, LoxVariable, LoxVariableType, TypeView, ValueView,
};
use crate::runtime::number::{
    ask, host_answers, host_ready, AnswerView, Answers, NumberAnswer, NumberRequest, RequestView,
};
use crate::scanner::push_char;
use crate::token::{Token, TokenType, TokenView};
use crate::tree::{lemma_tree_unfold, Tree, TreeView};
use vstd::prelude::*;

verus! {

broadcast use {group_views, group_values, lemma_tree_unfold};

/// The character of a decimal digit.
pub open spec fn spec_digit(d: int) -> char {
    if d == 0 {
        '0'
    } else if d == 1 {
        '1'
    } else if d == 2 {
        '2'
    } else if d == 3 {
        '3'
    } else if d == 4 {
        '4'
    } else if d == 5 {
        '5'
    } else if d == 6 {
        '6'
    } else if d == 7 {
        '7'
    } else if d == 8 {
        '8'
    } else {
        '9'
    }
}

/// A natural number in decimal notation, without leading zeros.
pub open spec fn spec_decimal(n: nat) -> Seq<char>
    decreases n,
{
    if n < 10 {
        seq![spec_digit(n as int)]
    } else {
        spec_decimal(n / 10).push(spec_digit((n % 10) as int))
    }
}

fn digit(d: usize) -> (r: char)
    requires
        d < 10,
    ensures
        r == spec_digit(d as int),
{
    if d == 0 {
        '0'
    } else if d == 1 {
        '1'
    } else if d == 2 {
        '2'
    } else if d == 3 {
        '3'
    } else if d == 4 {
        '4'
    } else if d == 5 {
        '5'
    } else if d == 6 {
        '6'
    } else if d == 7 {
        '7'
    } else if d == 8 {
        '8'
    } else {
        '9'
    }
}

/// The decimal notation of `n`.
pub fn decimal(n: usize) -> (r: String)
    ensures
        r@ == spec_decimal(n as nat),
    decreases n,
{
    if n < 10 {
        let mut r = String::new();
        push_char(&mut r, digit(n));
        assert(r@ =~= seq![spec_digit(n as int)]);
        r
    } else {
        let mut r = decimal(n / 10);
        push_char(&mut r, digit(n % 10));
        r
    }
}

/// A text filled up with blanks behind it to `width` characters.
pub open spec fn spec_padded(text: Seq<char>, width: nat) -> Seq<char>
    decreases width - text.len(),
{
    if text.len() >= width {
        text
    } else {
        spec_padded(text.push(' '), width)
    }
}

/// `text` filled up with blanks behind it to `width` characters.
pub fn padded(text: &str, width: usize) -> (r: String)
    ensures
        r@ == spec_padded(text@, width as nat),
{
    let mut r = String::from_str(text);
    let mut len = text.unicode_len();
    while len < width
        invariant
            len == r@.len(),
            spec_padded(r@, width as nat) == spec_padded(text@, width as nat),
        decreases width - len,
    {
        push_char(&mut r, ' ');
        len += 1;
    }
    r
}

/// The name of a kind of token.
pub open spec fn spec_token_type_name(kind: TokenType) -> Seq<char> {
    match kind {
        TokenType::LEFT_PAREN => "LEFT_PAREN"@,
        TokenType::RIGHT_PAREN => "RIGHT_PAREN"@,
        TokenType::LEFT_BRACE => "LEFT_BRACE"@,
        TokenType::RIGHT_BRACE => "RIGHT_BRACE"@,
        TokenType::LEFT_BRACKET => "LEFT_BRACKET"@,
        TokenType::RIGHT_BRACKET => "RIGHT_BRACKET"@,
        TokenType::COMMA => "COMMA"@,
        TokenType::DOT => "DOT"@,
        TokenType::STMT_SEP => "STMT_SEP"@,
        TokenType::SLASH => "SLASH"@,
        TokenType::SLASH_EQUAL => "SLASH_EQUAL"@,
        TokenType::STAR => "STAR"@,
        TokenType::STAR_EQUAL => "STAR_EQUAL"@,
        TokenType::PERCENT => "PERCENT"@,
        TokenType::PLUS => "PLUS"@,
        TokenType::PLUS_EQUAL => "PLUS_EQUAL"@,
        TokenType::MINUS => "MINUS"@,
        TokenType::MINUS_EQUAL => "MINUS_EQUAL"@,
        TokenType::BANG => "BANG"@,
        TokenType::BANG_EQUAL => "BANG_EQUAL"@,
        TokenType::EQUAL => "EQUAL"@,
        TokenType::EQUAL_EQUAL => "EQUAL_EQUAL"@,
        TokenType::GREATER => "GREATER"@,
        TokenType::GREATER_EQUAL => "GREATER_EQUAL"@,
        TokenType::LESS => "LESS"@,
        TokenType::LESS_EQUAL => "LESS_EQUAL"@,
        TokenType::IDENTIFIER => "IDENTIFIER"@,
        TokenType::STRING => "STRING"@,
        TokenType::NUMBER => "NUMBER"@,
        TokenType::AND => "AND"@,
        TokenType::CLASS => "CLASS"@,
        TokenType::ELSE => "ELSE"@,
        TokenType::FALSE => "FALSE"@,
        TokenType::FN => "FN"@,
        TokenType::FOR => "FOR"@,
        TokenType::IF => "IF"@,
        TokenType::NIL => "NIL"@,
        TokenType::OR => "OR"@,
        TokenType::PRINT => "PRINT"@,
        TokenType::RETURN => "RETURN"@,
        TokenType::SUPER => "SUPER"@,
        TokenType::THIS => "THIS"@,
        TokenType::TRUE => "TRUE"@,
        TokenType::VAR => "VAR"@,
        TokenType::WHILE => "WHILE"@,
        TokenType::EOF => "EOF"@,
        TokenType::DUMMY => "DUMMY"@,
    }
}

pub open spec fn spec_expr_type_name(kind: ExprType) -> Seq<char> {
    match kind {
        ExprType::Normal => "Normal"@,
        ExprType::Paren => "Paren"@,
        ExprType::Negated => "Negated"@,
        ExprType::Function => "Function"@,
    }
}

pub open spec fn spec_stmt_type_name(kind: StmtType) -> Seq<char> {
    match kind {
        StmtType::Normal => "Normal"@,
        StmtType::Braced => "Braced"@,
        StmtType::Assignment => "Assignment"@,
        StmtType::Declaration => "Declaration"@,
        StmtType::Compound => "Compound"@,
        StmtType::If => "If"@,
        StmtType::Elseif => "Elseif"@,
        StmtType::Else => "Else"@,
        StmtType::While => "While"@,
        StmtType::PlusEqual => "PlusEqual"@,
        StmtType::MinusEqual => "MinusEqual"@,
        StmtType::StarEqual => "StarEqual"@,
        StmtType::SlashEqual => "SlashEqual"@,
        StmtType::PercentEqual => "PercentEqual"@,
        StmtType::FunctionDef => "FunctionDef"@,
    }
}

/// A classification as it is written: the name of the variant, with what
/// it holds between parentheses.
pub open spec fn spec_ast_type_text(kind: AST_Type) -> Seq<char> {
    match kind {
        AST_Type::Unfinished => "Unfinished"@,
        AST_Type::Stmt(inner) => "Stmt("@ + spec_stmt_type_name(inner) + ")"@,
        AST_Type::PotentialStmt => "PotentialStmt"@,
        AST_Type::Expr(inner) => "Expr("@ + spec_expr_type_name(inner) + ")"@,
        AST_Type::Identifier => "Identifier"@,
        AST_Type::Unknown => "Unknown"@,
        AST_Type::Unparsed(inner) => "Unparsed("@ + spec_token_type_name(inner) + ")"@,
        AST_Type::Tuple => "Tuple"@,
    }
}

/// A token as it is written: its text, filled up to four characters, its
/// kind, and its line and column, between parentheses.
pub open spec fn spec_token_text(token: TokenView) -> Seq<char> {
    "("@ + spec_padded(token.lexeme, 4) + " "@ + spec_token_type_name(token.token_type) + " "@
        + spec_decimal(token.line as nat) + ":"@ + spec_decimal(token.column as nat) + ")"@
}

impl TokenType {
    /// The name of the kind.
    pub fn name(&self) -> (r: &'static str)
        ensures
            r@ == spec_token_type_name(*self),
    {
        match self {
            TokenType::LEFT_PAREN => "LEFT_PAREN",
            TokenType::RIGHT_PAREN => "RIGHT_PAREN",
            TokenType::LEFT_BRACE => "LEFT_BRACE",
            TokenType::RIGHT_BRACE => "RIGHT_BRACE",
            TokenType::LEFT_BRACKET => "LEFT_BRACKET",
            TokenType::RIGHT_BRACKET => "RIGHT_BRACKET",
            TokenType::COMMA => "COMMA",
            TokenType::DOT => "DOT",
            TokenType::STMT_SEP => "STMT_SEP",
            TokenType::SLASH => "SLASH",
            TokenType::SLASH_EQUAL => "SLASH_EQUAL",
            TokenType::STAR => "STAR",
            TokenType::STAR_EQUAL => "STAR_EQUAL",
            TokenType::PERCENT => "PERCENT",
            TokenType::PLUS => "PLUS",
            TokenType::PLUS_EQUAL => "PLUS_EQUAL",
            TokenType::MINUS => "MINUS",
            TokenType::MINUS_EQUAL => "MINUS_EQUAL",
            TokenType::BANG => "BANG",
            TokenType::BANG_EQUAL => "BANG_EQUAL",
            TokenType::EQUAL => "EQUAL",
            TokenType::EQUAL_EQUAL => "EQUAL_EQUAL",
            TokenType::GREATER => "GREATER",
            TokenType::GREATER_EQUAL => "GREATER_EQUAL",
            TokenType::LESS => "LESS",
            TokenType::LESS_EQUAL => "LESS_EQUAL",
            TokenType::IDENTIFIER => "IDENTIFIER",
            TokenType::STRING => "STRING",
            TokenType::NUMBER => "NUMBER",
            TokenType::AND => "AND",
            TokenType::CLASS => "CLASS",
            TokenType::ELSE => "ELSE",
            TokenType::FALSE => "FALSE",
            TokenType::FN => "FN",
            TokenType::FOR => "FOR",
            TokenType::IF => "IF",
            TokenType::NIL => "NIL",
            TokenType::OR => "OR",
            TokenType::PRINT => "PRINT",
            TokenType::RETURN => "RETURN",
            TokenType::SUPER => "SUPER",
            TokenType::THIS => "THIS",
            TokenType::TRUE => "TRUE",
            TokenType::VAR => "VAR",
            TokenType::WHILE => "WHILE",
            TokenType::EOF => "EOF",
            TokenType::DUMMY => "DUMMY",
        }
    }
}

impl ExprType {
    pub fn name(&self) -> (r: &'static str)
        ensures
            r@ == spec_expr_type_name(*self),
    {
        match self {
            ExprType::Normal => "Normal",
            ExprType::Paren => "Paren",
            ExprType::Negated => "Negated",
            ExprType::Function => "Function",
        }
    }
}

impl StmtType {
    pub fn name(&self) -> (r: &'static str)
        ensures
            r@ == spec_stmt_type_name(*self),
    {
        match self {
            StmtType::Normal => "Normal",
            StmtType::Braced => "Braced",
            StmtType::Assignment => "Assignment",
            StmtType::Declaration => "Declaration",
            StmtType::Compound => "Compound",
            StmtType::If => "If",
            StmtType::Elseif => "Elseif",
            StmtType::Else => "Else",
            StmtType::While => "While",
            StmtType::PlusEqual => "PlusEqual",
            StmtType::MinusEqual => "MinusEqual",
            StmtType::StarEqual => "StarEqual",
            StmtType::SlashEqual => "SlashEqual",
            StmtType::PercentEqual => "PercentEqual",
            StmtType::FunctionDef => "FunctionDef",
        }
    }
}

impl AST_Type {
    /// The classification as text.
    pub fn text(&self) -> (r: String)
        ensures
            r@ == spec_ast_type_text(*self),
    {
        match self {
            AST_Type::Unfinished => String::from_str("Unfinished"),
            AST_Type::Stmt(inner) => {
                let mut r = String::from_str("Stmt(");
                r.append(inner.name());
                r.append(")");
                r
            },
            AST_Type::PotentialStmt => String::from_str("PotentialStmt"),
            AST_Type::Expr(inner) => {
                let mut r = String::from_str("Expr(");
                r.append(inner.name());
                r.append(")");
                r
            },
            AST_Type::Identifier => String::from_str("Identifier"),
            AST_Type::Unknown => String::from_str("Unknown"),
            AST_Type::Unparsed(inner) => {
                let mut r = String::from_str("Unparsed(");
                r.append(inner.name());
                r.append(")");
                r
            },
            AST_Type::Tuple => String::from_str("Tuple"),
        }
    }
}

impl Token {
    /// The token as text.
    pub fn text(&self) -> (r: String)
        ensures
            r@ == spec_token_text(self@),
    {
        let mut r = String::from_str("(");
        r.append(padded(self.lexeme.as_str(), 4).as_str());
        r.append(" ");
        r.append(self.token_type.name());
        r.append(" ");
        r.append(decimal(self.line).as_str());
        r.append(":");
        r.append(decimal(self.column).as_str());
        r.append(")");
        r
    }
}

/// The lines of a subtree with the marks that hang it below its parent:
/// a branch before the first line, and before the others a bar, or blanks
/// below the last child.
pub open spec fn spec_indent(lines: Seq<Seq<char>>, last: bool) -> Seq<Seq<char>> {
    Seq::new(
        lines.len(),
        |j: int|
            (if j == 0 {
                " |-"@
            } else if last {
                "   "@
            } else {
                " | "@
            }) + lines[j],
    )
}

/// The lines of a tree: the node, then each child's lines below it.
pub open spec fn spec_node_lines(n: NodeView) -> Seq<Seq<char>>
    decreases n, 0nat,
{
    seq![spec_token_text(n.token) + "      AST_Type::"@ + spec_ast_type_text(n.ast_type)]
        + spec_children_lines(n.children, n.children.len() as int)
}

/// The lines of the first `k` of the children `kids`.
pub open spec fn spec_children_lines(kids: Seq<NodeView>, k: int) -> Seq<Seq<char>>
    decreases kids, k,
{
    if k <= 0 || k > kids.len() {
        Seq::empty()
    } else {
        spec_children_lines(kids, k - 1) + spec_indent(
            spec_node_lines(kids[k - 1]),
            k == kids.len(),
        )
    }
}

/// The first `k` lines, each but the first with a line break before it.
pub open spec fn spec_join_lines(lines: Seq<Seq<char>>, k: int) -> Seq<char>
    decreases k,
{
    if k <= 0 || k > lines.len() {
        Seq::empty()
    } else if k == 1 {
        lines[0]
    } else {
        spec_join_lines(lines, k - 1) + "\n"@ + lines[k - 1]
    }
}

/// A tree as text.
pub open spec fn spec_node_text(n: NodeView) -> Seq<char> {
    let lines = spec_node_lines(n);
    spec_join_lines(lines, lines.len() as int)
}

/// The texts of the first `k` trees of a run.
pub open spec fn spec_texts(run: Seq<NodeView>, k: int) -> Seq<Seq<char>> {
    Seq::new(k as nat, |j: int| spec_node_text(run[j]))
}

/// A run as text: its trees, one below the other.
pub open spec fn spec_run_text(run: Seq<NodeView>) -> Seq<char> {
    spec_join_lines(spec_texts(run, run.len() as int), run.len() as int)
}

/// Puts the marks of a child before its lines.
fn indent(lines: Vec<String>, last: bool) -> (r: Vec<String>)
    ensures
        string_views(r@) == spec_indent(string_views(lines@), last),
{
    let mut res: Vec<String> = Vec::new();
    let mut j: usize = 0;
    while j < lines.len()
        invariant
            j <= lines@.len(),
            res@.len() == j,
            forall|i: int|
                0 <= i < j ==> (#[trigger] res@[i])@ == spec_indent(string_views(lines@), last)[i],
        decreases lines@.len() - j,
    {
        let mut line = if j == 0 {
            String::from_str(" |-")
        } else if last {
            String::from_str("   ")
        } else {
            String::from_str(" | ")
        };
        line.append(lines[j].as_str());
        res.push(line);
        j += 1;
    }
    assert(string_views(res@) =~= spec_indent(string_views(lines@), last));
    res
}

/// Joins lines with line breaks between them.
pub fn join_lines(lines: &Vec<String>) -> (r: String)
    ensures
        r@ == spec_join_lines(string_views(lines@), lines@.len() as int),
{
    let mut res = String::new();
    let mut k: usize = 0;
    while k < lines.len()
        invariant
            k <= lines@.len(),
            res@ == spec_join_lines(string_views(lines@), k as int),
        decreases lines@.len() - k,
    {
        if k > 0 {
            res.append("\n");
        }
        res.append(lines[k].as_str());
        assert(k == 0 ==> res@ =~= lines@[0]@);
        k += 1;
    }
    res
}

impl AST_Node {
    /// The lines that show the tree: one node a line, the children of a
    /// node hung below it.
    #[verifier::rlimit(40)]
    pub fn lines(&self) -> (r: Vec<String>)
        ensures
            string_views(r@) == spec_node_lines(self@),
        decreases self,
    {
        let mut head = self.token.text();
        head.append("      AST_Type::");
        head.append(self.ast_type.text().as_str());
        let mut res: Vec<String> = Vec::new();
        res.push(head);
        let ghost first = string_views(res@);
        let ghost kids = self@.children;
        let count = self.children.len();
        let mut i: usize = 0;
        proof {
            assert(first =~= seq![
                spec_token_text(self@.token) + "      AST_Type::"@ + spec_ast_type_text(
                    self@.ast_type,
                ),
            ]);
            assert(first + spec_children_lines(kids, 0) =~= first);
        }
        while i < count
            invariant
                count == self.children@.len(),
                kids == views(self.children@),
                i <= count,
                string_views(res@) == first + spec_children_lines(kids, i as int),
            decreases count - i,
        {
            let ghost before = string_views(res@);
            let mut below = indent(self.children[i].lines(), i + 1 == count);
            let ghost added = string_views(below@);
            res.append(&mut below);
            proof {
                assert(string_views(res@) =~= before + added);
                assert(first + spec_children_lines(kids, i + 1) =~= before + added);
            }
            i += 1;
        }
        res
    }

    /// The tree as text.
    pub fn render(&self) -> (r: String)
        ensures
            r@ == spec_node_text(self@),
    {
        let lines = self.lines();
        join_lines(&lines)
    }
}

impl ParseTreeUnfinshed {
    /// The run as text: its trees, one below the other.
    pub fn render(&self) -> (r: String)
        ensures
            r@ == spec_run_text(self@),
    {
        let mut texts: Vec<String> = Vec::new();
        let mut i: usize = 0;
        while i < self.content.len()
            invariant
                i <= self.content@.len(),
                texts@.len() == i,
                forall|j: int| 0 <= j < i ==> (#[trigger] texts@[j])@ == spec_node_text(self@[j]),
            decreases self.content@.len() - i,
        {
            texts.push(self.content[i].render());
            i += 1;
        }
        assert(string_views(texts@) =~= spec_texts(self@, self@.len() as int));
        join_lines(&texts)
    }
}

/// The lines of a binary tree: the token of the node, then the lines of
/// the left and of the right child below it.
pub open spec fn spec_tree_lines(t: TreeView) -> Seq<Seq<char>>
    decreases t,
{
    seq![spec_token_text(t.token)] + (match t.left {
        Some(child) => spec_indent(spec_tree_lines(*child), t.right is None),
        None => Seq::empty(),
    }) + (match t.right {
        Some(child) => spec_indent(spec_tree_lines(*child), true),
        None => Seq::empty(),
    })
}

/// A binary tree as text.
pub open spec fn spec_tree_text(t: TreeView) -> Seq<char> {
    let lines = spec_tree_lines(t);
    spec_join_lines(lines, lines.len() as int)
}

impl Tree {
    /// The lines that show the tree.
    pub fn lines(&self) -> (r: Vec<String>)
        ensures
            string_views(r@) == spec_tree_lines(self@),
        decreases self,
    {
        let mut res: Vec<String> = Vec::new();
        res.push(self.token.text());
        let ghost head = string_views(res@);
        assert(head =~= seq![spec_token_text(self@.token)]);
        let ghost left_lines: Seq<Seq<char>> = Seq::empty();
        match &self.left {
            Some(child) => {
                let mut below = indent(child.lines(), self.right.is_none());
                proof {
                    left_lines = string_views(below@);
                }
                res.append(&mut below);
            },
            None => {},
        }
        assert(string_views(res@) =~= head + left_lines);
        let ghost right_lines: Seq<Seq<char>> = Seq::empty();
        match &self.right {
            Some(child) => {
                let mut below = indent(child.lines(), true);
                proof {
                    right_lines = string_views(below@);
                }
                res.append(&mut below);
            },
            None => {},
        }
        assert(string_views(res@) =~= head + left_lines + right_lines);
        res
    }

    /// The tree as text.
    pub fn render(&self) -> (r: String)
        ensures
            r@ == spec_tree_text(self@),
    {
        let lines = self.lines();
        join_lines(&lines)
    }
}

/// What a value is, as it is written: the name of its kind, and for
/// numbers, truth values and strings the value behind it. Nothing where
/// the host does not say how a number is written.
pub open spec fn spec_type_text(answers: Answers, kind: TypeView) -> Option<Seq<char>> {
    match kind {
        TypeView::Number(n) => match answers(RequestView::Format(n)) {
            AnswerView::Text(text) => Some("NUMBER: "@ + text),
            _ => None,
        },
        TypeView::Bool(b) => Some(
            "BOOL: "@ + if b {
                "true"@
            } else {
                "false"@
            },
        ),
        TypeView::Str(s) => Some("STRING: "@ + s),
        TypeView::StdFunction(_) => Some("STD FUNCTION"@),
        TypeView::LoxFunction(_) => Some("LOX FUNCTION"@),
        TypeView::Tuple(_) => Some("TUPLE"@),
        TypeView::Nothing => Some("NONE"@),
    }
}

/// A variable as it is written: its name, or `RVALUE` for a value without
/// name, filled up to ten characters, and what it is.
pub open spec fn spec_variable_text(answers: Answers, v: ValueView) -> Option<Seq<char>> {
    match spec_type_text(answers, v.variable_type) {
        Some(kind) => Some(
            spec_padded(
                match v.identifier {
                    Some(name) => name,
                    None => "RVALUE"@,
                },
                10,
            ) + ": "@ + kind,
        ),
        None => None,
    }
}

impl LoxVariableType {
    /// What the value is, as text.
    pub fn text<H: Fn(NumberRequest) -> NumberAnswer>(&self, host: &H) -> (r: Option<String>)
        requires
            host_ready(host),
        ensures
            match spec_type_text(host_answers(host), self@) {
                Some(text) => r is Some && r->Some_0@ == text,
                None => r is None,
            },
    {
        match self {
            LoxVariableType::NUMBER(n) => {
                match ask(host, NumberRequest::Format(*n)) {
                    NumberAnswer::Text(text) => {
                        let mut r = String::from_str("NUMBER: ");
                        r.append(text.as_str());
                        Some(r)
                    },
                    _ => None,
                }
            },
            LoxVariableType::BOOL(b) => {
                let mut r = String::from_str("BOOL: ");
                if *b {
                    r.append("true");
                } else {
                    r.append("false");
                }
                Some(r)
            },
            LoxVariableType::STRING(s) => {
                let mut r = String::from_str("STRING: ");
                r.append(s.as_str());
                Some(r)
            },
            LoxVariableType::STD_FUNCTION(_) => Some(String::from_str("STD FUNCTION")),
            LoxVariableType::LOX_FUNCTION(_) => Some(String::from_str("LOX FUNCTION")),
            LoxVariableType::TUPLE(_) => Some(String::from_str("TUPLE")),
            LoxVariableType::NONE => Some(String::from_str("NONE")),
        }
    }
}

impl LoxVariable {
    /// The variable as text.
    pub fn text<H: Fn(NumberRequest) -> NumberAnswer>(&self, host: &H) -> (r: Option<String>)
        requires
            host_ready(host),
        ensures
            match spec_variable_text(host_answers(host), self@) {
                Some(text) => r is Some && r->Some_0@ == text,
                None => r is None,
            },
    {
        let kind = match self.variable_type.text(host) {
            Some(kind) => kind,
            None => {
                return None;
            },
        };
        let mut r = match &self.identifier {
            Some(name) => padded(name.as_str(), 10),
            None => padded("RVALUE", 10),
        };
        r.append(": ");
        r.append(kind.as_str());
        Some(r)
    }
}

} // verus!
