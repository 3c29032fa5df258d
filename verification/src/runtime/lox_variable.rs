//! Runtime values.
use crate::ast_node::{group_views, AST_Node, AST_Type, NodeView, StmtType};
use crate::err_lox::{spec_error_at, spec_error_nowhere, ErrorLox, ErrorView};
use crate::token::{Token, TokenView};
use vstd::prelude::*;

verus! {

broadcast use group_views;

/// A number of the language: the bit pattern of an IEEE 754 double. The
/// interpreter carries numbers around and compares their bits; it leaves
/// all arithmetic to its host.
#[derive(Clone, Copy, Debug, PartialEq, Eq, Structural)]
pub struct Number {
    pub bits: u64,
}

/// The functions that the interpreter provides itself.
#[derive(Clone, Copy, Debug, PartialEq, Eq, Structural)]
pub enum StdFunction {
    /// Writes its arguments, one behind the other, as one line of output.
    Print,
}

/// A function defined in the language: the names of its parameters and
/// its body, a braced statement.
#[derive(Debug)]
pub struct LoxFunction {
    pub lexemes: Vec<String>,
    pub content: AST_Node,
}

pub struct FunctionView {
    pub lexemes: Seq<Seq<char>>,
    pub content: NodeView,
}

/// The values of a run of strings.
pub open spec fn string_views(s: Seq<String>) -> Seq<Seq<char>> {
    Seq::new(s.len(), |i: int| s[i]@)
}

impl View for LoxFunction {
    type V = FunctionView;

    open spec fn view(&self) -> FunctionView {
        FunctionView { lexemes: string_views(self.lexemes@), content: self.content@ }
    }
}

/// What a value is.
#[allow(non_camel_case_types)]
#[derive(Debug)]
pub enum LoxVariableType {
    NUMBER(Number),
    BOOL(bool),
    STRING(String),
    STD_FUNCTION(StdFunction),
    LOX_FUNCTION(LoxFunction),
    TUPLE(Vec<LoxVariable>),
    NONE,
}

/// A value, with the name it is bound to, if any, and the token it came
/// from, which serves to locate diagnostics and nothing else.
#[derive(Debug)]
pub struct LoxVariable {
    pub identifier: Option<String>,
    pub variable_type: LoxVariableType,
    pub ref_token: Option<Token>,
}

pub enum TypeView {
    Number(Number),
    Bool(bool),
    Str(Seq<char>),
    StdFunction(StdFunction),
    LoxFunction(FunctionView),
    Tuple(Seq<ValueView>),
    Nothing,
}

pub struct ValueView {
    pub identifier: Option<Seq<char>>,
    pub variable_type: TypeView,
    pub ref_token: Option<TokenView>,
}

/// The values of a run of variables, in order.
pub open spec fn value_views(s: Seq<LoxVariable>) -> Seq<ValueView>
    decreases s,
{
    Seq::new(
        s.len(),
        |i: int|
            if 0 <= i < s.len() {
                s[i].view()
            } else {
                arbitrary()
            },
    )
}

impl View for LoxVariableType {
    type V = TypeView;

    open spec fn view(&self) -> TypeView
        decreases self,
    {
        match self {
            LoxVariableType::NUMBER(n) => TypeView::Number(*n),
            LoxVariableType::BOOL(b) => TypeView::Bool(*b),
            LoxVariableType::STRING(s) => TypeView::Str(s@),
            LoxVariableType::STD_FUNCTION(f) => TypeView::StdFunction(*f),
            LoxVariableType::LOX_FUNCTION(f) => TypeView::LoxFunction(f@),
            LoxVariableType::TUPLE(items) => TypeView::Tuple(value_views(items@)),
            LoxVariableType::NONE => TypeView::Nothing,
        }
    }
}

pub open spec fn option_string_view(s: Option<String>) -> Option<Seq<char>> {
    match s {
        Some(text) => Some(text@),
        None => None,
    }
}

pub open spec fn option_token_view(t: Option<Token>) -> Option<TokenView> {
    match t {
        Some(token) => Some(token@),
        None => None,
    }
}

impl View for LoxVariable {
    type V = ValueView;

    open spec fn view(&self) -> ValueView
        decreases self,
    {
        ValueView {
            identifier: option_string_view(self.identifier),
            variable_type: self.variable_type.view(),
            ref_token: option_token_view(self.ref_token),
        }
    }
}

pub broadcast proof fn lemma_value_unfold(v: LoxVariable)
    ensures
        #[trigger] v@ == (ValueView {
            identifier: option_string_view(v.identifier),
            variable_type: v.variable_type@,
            ref_token: option_token_view(v.ref_token),
        }),
{
}

pub broadcast proof fn lemma_type_unfold(t: LoxVariableType)
    ensures
        #[trigger] t@ == match t {
            LoxVariableType::NUMBER(n) => TypeView::Number(n),
            LoxVariableType::BOOL(b) => TypeView::Bool(b),
            LoxVariableType::STRING(s) => TypeView::Str(s@),
            LoxVariableType::STD_FUNCTION(f) => TypeView::StdFunction(f),
            LoxVariableType::LOX_FUNCTION(f) => TypeView::LoxFunction(f@),
            LoxVariableType::TUPLE(items) => TypeView::Tuple(value_views(items@)),
            LoxVariableType::NONE => TypeView::Nothing,
        },
{
}

pub broadcast proof fn lemma_value_views_len(s: Seq<LoxVariable>)
    ensures
        #[trigger] value_views(s).len() == s.len(),
{
}

pub broadcast proof fn lemma_value_views_index(s: Seq<LoxVariable>, i: int)
    requires
        0 <= i < s.len(),
    ensures
        #[trigger] value_views(s)[i] == s[i]@,
{
}

pub broadcast proof fn lemma_value_views_push(s: Seq<LoxVariable>, v: LoxVariable)
    ensures
        #[trigger] value_views(s.push(v)) == value_views(s).push(v@),
{
    assert(value_views(s.push(v)) =~= value_views(s).push(v@));
}

pub broadcast proof fn lemma_value_views_update(s: Seq<LoxVariable>, i: int, v: LoxVariable)
    requires
        0 <= i < s.len(),
    ensures
        #[trigger] value_views(s.update(i, v)) == value_views(s).update(i, v@),
{
    assert(value_views(s.update(i, v)) =~= value_views(s).update(i, v@));
}

pub broadcast proof fn lemma_value_views_empty()
    ensures
        #[trigger] value_views(Seq::<LoxVariable>::empty()) == Seq::<ValueView>::empty(),
{
    assert(value_views(Seq::<LoxVariable>::empty()) =~= Seq::<ValueView>::empty());
}

pub broadcast proof fn lemma_value_views_drop_last(s: Seq<LoxVariable>)
    requires
        s.len() > 0,
    ensures
        #[trigger] value_views(s.drop_last()) == value_views(s).drop_last(),
{
    assert(value_views(s.drop_last()) =~= value_views(s).drop_last());
}

pub broadcast group group_values {
    lemma_value_unfold,
    lemma_type_unfold,
    lemma_value_views_len,
    lemma_value_views_index,
    lemma_value_views_push,
    lemma_value_views_update,
    lemma_value_views_empty,
    lemma_value_views_drop_last,
}

/// The value that is nothing, bound to no name, from nowhere.
pub open spec fn spec_empty() -> ValueView {
    ValueView { identifier: None, variable_type: TypeView::Nothing, ref_token: None }
}

/// The value nothing that came from `token`.
pub open spec fn spec_empty_from(token: TokenView) -> ValueView {
    ValueView { identifier: None, variable_type: TypeView::Nothing, ref_token: Some(token) }
}

/// How many members of a tuple are not nothing.
pub open spec fn spec_count_present(items: Seq<ValueView>) -> nat
    decreases items.len(),
{
    if items.len() == 0 {
        0
    } else {
        spec_count_present(items.drop_last()) + if items.last().variable_type is Nothing {
            0nat
        } else {
            1nat
        }
    }
}

pub proof fn lemma_count_present_bound(items: Seq<ValueView>)
    ensures
        spec_count_present(items) <= items.len(),
    decreases items.len(),
{
    if items.len() > 0 {
        lemma_count_present_bound(items.drop_last());
    }
}

/// The number of members of a tuple that are not nothing; none for a value
/// that is no tuple.
pub open spec fn spec_tuple_length(v: ValueView) -> Option<nat> {
    match v.variable_type {
        TypeView::Tuple(items) => Some(spec_count_present(items)),
        _ => None,
    }
}

/// A tuple as it is; any other value as the tuple of that one value, bound
/// to no name.
pub open spec fn spec_to_tuple(v: ValueView) -> ValueView {
    match v.variable_type {
        TypeView::Tuple(_) => v,
        _ => ValueView {
            identifier: None,
            variable_type: TypeView::Tuple(seq![v]),
            ref_token: v.ref_token,
        },
    }
}

/// The diagnostic that points at where a value came from, or at nothing
/// for a value from nowhere.
pub open spec fn spec_value_error(v: ValueView, description: Seq<char>) -> ErrorView {
    match v.ref_token {
        None => spec_error_nowhere(description),
        Some(token) => spec_error_at(description, token.line, token.column, token.source_file),
    }
}

impl LoxFunction {
    /// The function with the parameters that the members of `tuple` name
    /// and the body `execute_block`.
    pub fn from_ast(tuple: &AST_Node, execute_block: &AST_Node) -> (r: Result<
        LoxFunction,
        ErrorLox,
    >)
        ensures
            tuple@.ast_type != AST_Type::Tuple ==> r is Err && r->Err_0@ == spec_error_at(
                "expected tuple or identifer for function definition (LoxFunction::from_ast)"@,
                tuple@.token.line,
                tuple@.token.column,
                tuple@.token.source_file,
            ),
            tuple@.ast_type == AST_Type::Tuple && execute_block@.ast_type != AST_Type::Stmt(
                StmtType::Braced,
            ) ==> r is Err && r->Err_0@ == spec_error_at(
                "expected braced stmt for function definition"@,
                execute_block@.token.line,
                execute_block@.token.column,
                execute_block@.token.source_file,
            ),
            tuple@.ast_type == AST_Type::Tuple && execute_block@.ast_type == AST_Type::Stmt(
                StmtType::Braced,
            ) ==> r is Ok && r->Ok_0@ == spec_function_from_ast(tuple@, execute_block@),
    {
        if tuple.get_AST_Type() != AST_Type::Tuple {
            return Err(
                ErrorLox::from_ast_node(
                    tuple,
                    "expected tuple or identifer for function definition (LoxFunction::from_ast)",
                ),
            );
        }
        if execute_block.get_AST_Type() != AST_Type::Stmt(StmtType::Braced) {
            return Err(
                ErrorLox::from_ast_node(
                    execute_block,
                    "expected braced stmt for function definition",
                ),
            );
        }
        let mut lexemes: Vec<String> = Vec::new();
        let mut i: usize = 0;
        while i < tuple.children.len()
            invariant
                i <= tuple.children@.len(),
                lexemes@.len() == i,
                forall|j: int|
                    0 <= j < i ==> (#[trigger] lexemes@[j])@ == tuple@.children[j].token.lexeme,
            decreases tuple.children@.len() - i,
        {
            lexemes.push(tuple.children[i].token.lexeme.clone());
            i += 1;
        }
        let r = LoxFunction { lexemes, content: execute_block.duplicate() };
        assert(r@.lexemes =~= spec_function_from_ast(tuple@, execute_block@).lexemes);
        Ok(r)
    }

    pub fn get_lexeme(&self) -> (r: &Vec<String>)
        ensures
            string_views(r@) == self@.lexemes,
    {
        &self.lexemes
    }

    pub fn get_lexeme_length(&self) -> (r: usize)
        ensures
            r == self@.lexemes.len(),
    {
        self.lexemes.len()
    }

    pub fn get_content(&self) -> (r: &AST_Node)
        ensures
            r@ == self@.content,
    {
        &self.content
    }

    /// An independent copy.
    pub fn duplicate(&self) -> (r: LoxFunction)
        ensures
            r@ == self@,
    {
        let mut lexemes: Vec<String> = Vec::new();
        let mut i: usize = 0;
        while i < self.lexemes.len()
            invariant
                i <= self.lexemes@.len(),
                lexemes@.len() == i,
                forall|j: int| 0 <= j < i ==> (#[trigger] lexemes@[j])@ == self.lexemes@[j]@,
            decreases self.lexemes@.len() - i,
        {
            lexemes.push(self.lexemes[i].clone());
            i += 1;
        }
        let r = LoxFunction { lexemes, content: self.content.duplicate() };
        assert(r@.lexemes =~= self@.lexemes);
        r
    }
}

/// The function whose parameters are the lexemes of the members of `tuple`
/// and whose body is `body`.
pub open spec fn spec_function_from_ast(tuple: NodeView, body: NodeView) -> FunctionView {
    FunctionView {
        lexemes: Seq::new(tuple.children.len(), |j: int| tuple.children[j].token.lexeme),
        content: body,
    }
}

impl LoxVariableType {
    /// An independent copy.
    pub fn duplicate(&self) -> (r: LoxVariableType)
        ensures
            r@ == self@,
        decreases self,
    {
        match self {
            LoxVariableType::NUMBER(n) => LoxVariableType::NUMBER(*n),
            LoxVariableType::BOOL(b) => LoxVariableType::BOOL(*b),
            LoxVariableType::STRING(s) => LoxVariableType::STRING(s.clone()),
            LoxVariableType::STD_FUNCTION(f) => LoxVariableType::STD_FUNCTION(*f),
            LoxVariableType::LOX_FUNCTION(f) => LoxVariableType::LOX_FUNCTION(f.duplicate()),
            LoxVariableType::TUPLE(items) => {
                let mut copies: Vec<LoxVariable> = Vec::new();
                let mut i: usize = 0;
                while i < items.len()
                    invariant
                        self matches LoxVariableType::TUPLE(held) && held == items,
                        i <= items@.len(),
                        copies@.len() == i,
                        forall|j: int| 0 <= j < i ==> (#[trigger] copies@[j])@ == items@[j]@,
                    decreases items@.len() - i,
                {
                    copies.push(items[i].duplicate());
                    i += 1;
                }
                assert(value_views(copies@) =~= value_views(items@));
                LoxVariableType::TUPLE(copies)
            },
            LoxVariableType::NONE => LoxVariableType::NONE,
        }
    }
}

impl LoxVariable {
    pub fn new(
        identifier: Option<String>,
        variable_type: LoxVariableType,
        ref_token: Option<Token>,
    ) -> (r: LoxVariable)
        ensures
            r@ == (ValueView {
                identifier: option_string_view(identifier),
                variable_type: variable_type@,
                ref_token: option_token_view(ref_token),
            }),
    {
        LoxVariable { identifier, variable_type, ref_token }
    }

    /// An independent copy.
    pub fn duplicate(&self) -> (r: LoxVariable)
        ensures
            r@ == self@,
        decreases self,
    {
        LoxVariable {
            identifier: match &self.identifier {
                Some(name) => Some(name.clone()),
                None => None,
            },
            variable_type: self.variable_type.duplicate(),
            ref_token: match &self.ref_token {
                Some(token) => Some(token.duplicate()),
                None => None,
            },
        }
    }

    pub fn get_identifier(&self) -> (r: Option<String>)
        ensures
            option_string_view(r) == self@.identifier,
    {
        match &self.identifier {
            None => None,
            Some(a) => Some(a.clone()),
        }
    }

    pub fn set_identifier(&mut self, identifier: String)
        ensures
            final(self)@ == (ValueView { identifier: Some(identifier@), ..old(self)@ }),
    {
        self.identifier = Some(identifier);
    }

    /// A copy of the token that the value came from.
    pub fn get_ref_node(&self) -> (r: Option<Token>)
        ensures
            option_token_view(r) == self@.ref_token,
    {
        match &self.ref_token {
            Some(token) => Some(token.duplicate()),
            None => None,
        }
    }

    pub fn set_ref_node(&mut self, ref_token: Token)
        ensures
            final(self)@ == (ValueView { ref_token: Some(ref_token@), ..old(self)@ }),
    {
        self.ref_token = Some(ref_token);
    }

    pub fn get_type(&self) -> (r: LoxVariableType)
        ensures
            r@ == self@.variable_type,
    {
        self.variable_type.duplicate()
    }

    pub fn set_type(&mut self, variable_type: LoxVariableType)
        ensures
            final(self)@ == (ValueView { variable_type: variable_type@, ..old(self)@ }),
    {
        self.variable_type = variable_type;
    }

    /// The number of members of a tuple that are not nothing; none for a
    /// value that is no tuple.
    pub fn get_tuple_length(&self) -> (r: Option<usize>)
        ensures
            match spec_tuple_length(self@) {
                Some(n) => r == Some(n as usize) && n <= usize::MAX,
                None => r is None,
            },
    {
        match &self.variable_type {
            LoxVariableType::TUPLE(vec) => {
                let mut length: usize = 0;
                let mut i: usize = 0;
                let ghost all = value_views(vec@);
                proof {
                    assert(all.subrange(0, 0) =~= Seq::<ValueView>::empty());
                }
                while i < vec.len()
                    invariant
                        all == value_views(vec@),
                        i <= vec@.len(),
                        length <= i,
                        length == spec_count_present(all.subrange(0, i as int)),
                    decreases vec@.len() - i,
                {
                    proof {
                        assert(all.subrange(0, i + 1).drop_last() =~= all.subrange(0, i as int));
                    }
                    match &vec[i].variable_type {
                        LoxVariableType::NONE => {},
                        _ => {
                            length += 1;
                        },
                    }
                    i += 1;
                }
                assert(all.subrange(0, i as int) =~= all);
                Some(length)
            },
            _ => None,
        }
    }

    /// Copies of the members of a tuple; none for a value that is no tuple.
    pub fn get_tuple_content(&self) -> (r: Option<Vec<LoxVariable>>)
        ensures
            match self@.variable_type {
                TypeView::Tuple(items) => r is Some && value_views(r->Some_0@) == items,
                _ => r is None,
            },
    {
        match self.variable_type.duplicate() {
            LoxVariableType::TUPLE(vec) => Some(vec),
            _ => None,
        }
    }

    pub fn is_lvalue(&self) -> (r: bool)
        ensures
            r == (self@.identifier is Some),
    {
        self.identifier.is_some()
    }

    pub fn is_rvalue(&self) -> (r: bool)
        ensures
            r == (self@.identifier is None),
    {
        !self.is_lvalue()
    }

    pub fn is_number(&self) -> (r: bool)
        ensures
            r == (self@.variable_type is Number),
    {
        match &self.variable_type {
            LoxVariableType::NUMBER(_) => true,
            _ => false,
        }
    }

    pub fn get_number(&self) -> (r: Number)
        requires
            self@.variable_type is Number,
        ensures
            self@.variable_type == TypeView::Number(r),
    {
        match &self.variable_type {
            LoxVariableType::NUMBER(n) => *n,
            _ => Number { bits: 0 },
        }
    }

    pub fn is_bool(&self) -> (r: bool)
        ensures
            r == (self@.variable_type is Bool),
    {
        match &self.variable_type {
            LoxVariableType::BOOL(_) => true,
            _ => false,
        }
    }

    pub fn get_bool(&self) -> (r: bool)
        requires
            self@.variable_type is Bool,
        ensures
            self@.variable_type == TypeView::Bool(r),
    {
        match &self.variable_type {
            LoxVariableType::BOOL(b) => *b,
            _ => false,
        }
    }

    pub fn is_string(&self) -> (r: bool)
        ensures
            r == (self@.variable_type is Str),
    {
        match &self.variable_type {
            LoxVariableType::STRING(_) => true,
            _ => false,
        }
    }

    pub fn get_string(&self) -> (r: String)
        requires
            self@.variable_type is Str,
        ensures
            self@.variable_type == TypeView::Str(r@),
    {
        match &self.variable_type {
            LoxVariableType::STRING(s) => s.clone(),
            _ => String::new(),
        }
    }

    /// Whether the value is a function that the interpreter provides.
    pub fn is_function(&self) -> (r: bool)
        ensures
            r == (self@.variable_type is StdFunction),
    {
        match &self.variable_type {
            LoxVariableType::STD_FUNCTION(_) => true,
            _ => false,
        }
    }

    pub fn get_function(&self) -> (r: StdFunction)
        requires
            self@.variable_type is StdFunction,
        ensures
            self@.variable_type == TypeView::StdFunction(r),
    {
        match &self.variable_type {
            LoxVariableType::STD_FUNCTION(f) => *f,
            _ => StdFunction::Print,
        }
    }

    pub fn is_tuple(&self) -> (r: bool)
        ensures
            r == (self@.variable_type is Tuple),
    {
        match &self.variable_type {
            LoxVariableType::TUPLE(_) => true,
            _ => false,
        }
    }

    pub fn is_none(&self) -> (r: bool)
        ensures
            r == (self@.variable_type is Nothing),
    {
        match &self.variable_type {
            LoxVariableType::NONE => true,
            _ => false,
        }
    }

    pub fn empty() -> (r: LoxVariable)
        ensures
            r@ == spec_empty(),
    {
        LoxVariable { identifier: None, variable_type: LoxVariableType::NONE, ref_token: None }
    }

    /// The value nothing that came from `node`.
    pub fn empty_from_ast_node(node: &AST_Node) -> (r: LoxVariable)
        ensures
            r@ == spec_empty_from(node@.token),
    {
        LoxVariable {
            identifier: None,
            variable_type: LoxVariableType::NONE,
            ref_token: Some(node.token.duplicate()),
        }
    }

    /// A tuple as it is; any other value as the tuple of that one value.
    pub fn to_tuple(&self) -> (r: LoxVariable)
        ensures
            r@ == spec_to_tuple(self@),
    {
        match &self.variable_type {
            LoxVariableType::TUPLE(_) => self.duplicate(),
            _ => {
                let items = vec![self.duplicate()];
                assert(value_views(items@) =~= seq![self@]);
                LoxVariable {
                    identifier: None,
                    variable_type: LoxVariableType::TUPLE(items),
                    ref_token: self.get_ref_node(),
                }
            },
        }
    }
}

impl ErrorLox {
    /// The diagnostic that points at where `variable` came from.
    pub fn from_lox_variable(variable: &LoxVariable, description: &str) -> (r: ErrorLox)
        ensures
            r@ == spec_value_error(variable@, description@),
    {
        match &variable.ref_token {
            None => ErrorLox::nowhere(description),
            Some(token) => ErrorLox::from_token(token, description),
        }
    }
}

} // verus!
