//! The variable stack: scopes, innermost last, each binding names to
//! values. A lookup takes the innermost binding of a name.
use crate::ast_node::AST_Node;
use crate::err_lox::{spec_error_at, ErrorLox, ErrorView};
use crate::runtime::lox_variable::{group_values, value_views, LoxVariable, ValueView};
use vstd::prelude::*;

verus! {

broadcast use group_values;

/// One scope as a mathematical map.
pub type ScopeView = Map<Seq<char>, ValueView>;

/// The scopes of a program at one moment, the innermost last. Each scope
/// lists its bindings in the order in which they were made; where a name
/// is bound twice in one scope, the later binding counts.
#[derive(Debug)]
pub struct Stack {
    pub content: Vec<Vec<LoxVariable>>,
}

/// The map that a list of bindings stands for. A value without a name
/// binds nothing.
pub open spec fn scope_map(entries: Seq<ValueView>) -> ScopeView
    decreases entries.len(),
{
    if entries.len() == 0 {
        Map::empty()
    } else {
        let rest = scope_map(entries.drop_last());
        match entries.last().identifier {
            Some(name) => rest.insert(name, entries.last()),
            None => rest,
        }
    }
}

pub open spec fn scope_maps(scopes: Seq<Vec<LoxVariable>>) -> Seq<ScopeView> {
    Seq::new(scopes.len(), |i: int| scope_map(value_views(scopes[i]@)))
}

impl View for Stack {
    type V = Seq<ScopeView>;

    open spec fn view(&self) -> Seq<ScopeView> {
        scope_maps(self.content@)
    }
}

/// The index of the innermost scope that binds `name`, if one does.
pub open spec fn spec_locate(stack: Seq<ScopeView>, name: Seq<char>) -> Option<int>
    decreases stack.len(),
{
    if stack.len() == 0 {
        None
    } else if stack.last().contains_key(name) {
        Some(stack.len() - 1)
    } else {
        spec_locate(stack.drop_last(), name)
    }
}

/// The innermost binding of `name`, if there is one.
pub open spec fn spec_lookup(stack: Seq<ScopeView>, name: Seq<char>) -> Option<ValueView> {
    match spec_locate(stack, name) {
        Some(k) => Some(stack[k][name]),
        None => None,
    }
}

/// The stack with one more, empty scope.
pub open spec fn spec_new_scope(stack: Seq<ScopeView>) -> Seq<ScopeView> {
    stack.push(Map::empty())
}

/// The stack without its innermost scope. A stack without scopes stays as
/// it is.
pub open spec fn spec_pop_scope(stack: Seq<ScopeView>) -> Seq<ScopeView> {
    if stack.len() > 0 {
        stack.drop_last()
    } else {
        stack
    }
}

/// The stack in which the innermost scope binds the name of `value` to
/// `value`. A value without a name, or a stack without a scope, changes
/// nothing.
pub open spec fn spec_push(stack: Seq<ScopeView>, value: ValueView) -> Seq<ScopeView> {
    match value.identifier {
        Some(name) => if stack.len() > 0 {
            stack.update(stack.len() - 1, stack.last().insert(name, value))
        } else {
            stack
        },
        None => stack,
    }
}

/// The stack in which the innermost binding of `name` is replaced by
/// `value`. Where nothing binds `name`, nothing changes.
pub open spec fn spec_rebind(stack: Seq<ScopeView>, name: Seq<char>, value: ValueView) -> Seq<
    ScopeView,
> {
    match spec_locate(stack, name) {
        Some(k) => stack.update(k, stack[k].insert(name, value)),
        None => stack,
    }
}

/// The diagnostic for a name that nothing binds. It points at `node`.
pub open spec fn spec_undeclared_error(
    name: Seq<char>,
    line: usize,
    column: usize,
    source: Seq<char>,
) -> ErrorView {
    spec_error_at(
        "Can not find value '"@ + name
            + "' in scope. Variable can only be used after declaration."@,
        line,
        column,
        source,
    )
}

pub proof fn lemma_locate_bounds(stack: Seq<ScopeView>, name: Seq<char>)
    ensures
        spec_locate(stack, name) matches Some(k) ==> 0 <= k < stack.len() && stack[k].contains_key(
            name,
        ),
    decreases stack.len(),
{
    if stack.len() > 0 && !stack.last().contains_key(name) {
        lemma_locate_bounds(stack.drop_last(), name);
    }
}

/// Replacing the last binding of a name in a list of bindings replaces
/// the name's value in the map.
pub proof fn lemma_scope_map_update(entries: Seq<ValueView>, j: int, value: ValueView)
    requires
        0 <= j < entries.len(),
        entries[j].identifier is Some,
        value.identifier == entries[j].identifier,
        forall|k: int| j < k < entries.len() ==> entries[k].identifier != entries[j].identifier,
    ensures
        scope_map(entries.update(j, value)) == scope_map(entries).insert(
            entries[j].identifier->Some_0,
            value,
        ),
    decreases entries.len(),
{
    let name = entries[j].identifier->Some_0;
    let updated = entries.update(j, value);
    if j == entries.len() - 1 {
        assert(updated.drop_last() =~= entries.drop_last());
        assert(scope_map(updated) =~= scope_map(entries).insert(name, value));
    } else {
        lemma_scope_map_update(entries.drop_last(), j, value);
        assert(updated.drop_last() =~= entries.drop_last().update(j, value));
        assert(scope_map(updated) =~= scope_map(entries).insert(name, value));
    }
}

impl Stack {
    /// A stack without any scope.
    pub fn new() -> (r: Stack)
        ensures
            r@ == Seq::<ScopeView>::empty(),
    {
        let r = Stack { content: Vec::new() };
        assert(r@ =~= Seq::<ScopeView>::empty());
        r
    }

    /// The stack that a program starts with: a base scope that binds the
    /// named members of `library`, and an empty scope on top of it.
    pub fn init(library: Vec<LoxVariable>) -> (r: Stack)
        ensures
            r@ == seq![scope_map(value_views(library@)), Map::empty()],
    {
        let mut content: Vec<Vec<LoxVariable>> = Vec::new();
        content.push(library);
        content.push(Vec::new());
        let r = Stack { content };
        assert(r@ =~= seq![scope_map(value_views(library@)), Map::empty()]);
        r
    }

    /// The number of scopes.
    pub fn depth(&self) -> (r: usize)
        ensures
            r == self@.len(),
    {
        self.content.len()
    }

    pub fn new_scope(&mut self)
        ensures
            final(self)@ == spec_new_scope(old(self)@),
    {
        self.content.push(Vec::new());
        assert(self@ =~= spec_new_scope(old(self)@));
    }

    pub fn pop_scope(&mut self)
        ensures
            final(self)@ == spec_pop_scope(old(self)@),
    {
        let _ = self.content.pop();
        assert(self@ =~= spec_pop_scope(old(self)@));
    }

    /// Binds the name of `v` to `v` in the innermost scope. A value
    /// without a name is dropped.
    pub fn push(&mut self, v: LoxVariable)
        requires
            old(self)@.len() > 0,
        ensures
            final(self)@ == spec_push(old(self)@, v@),
    {
        if v.is_rvalue() {
            return ;
        }
        let ghost before = self.content@;
        let mut scope = self.content.pop().unwrap();
        let ghost entries = value_views(scope@);
        scope.push(v);
        assert(value_views(scope@).drop_last() =~= entries);
        self.content.push(scope);
        assert(self@ =~= spec_push(old(self)@, v@));
    }

    /// Where the innermost binding of `identifier` stands: the index of
    /// its scope and its place among the bindings of that scope.
    #[verifier::rlimit(40)]
    fn locate(&self, identifier: &str) -> (r: Option<(usize, usize)>)
        ensures
            match spec_locate(self@, identifier@) {
                None => r is None,
                Some(k) => {
                    &&& r is Some
                    &&& r->Some_0.0 == k
                    &&& k < self.content@.len()
                    &&& r->Some_0.1 < self.content@[k]@.len()
                    &&& self.content@[k]@[r->Some_0.1 as int]@.identifier == Some(identifier@)
                    &&& forall|j: int|
                        r->Some_0.1 < j < self.content@[k]@.len()
                            ==> self.content@[k]@[j]@.identifier != Some(identifier@)
                    &&& self@[k][identifier@] == self.content@[k]@[r->Some_0.1 as int]@
                },
            },
    {
        let key = String::from_str(identifier);
        let mut k: usize = self.content.len();
        proof {
            assert(self@.subrange(0, k as int) =~= self@);
        }
        while k > 0
            invariant
                k <= self.content@.len(),
                key@ == identifier@,
                spec_locate(self@, identifier@) == spec_locate(
                    self@.subrange(0, k as int),
                    identifier@,
                ),
            decreases k,
        {
            let scope = &self.content[k - 1];
            let ghost entries = value_views(scope@);
            let mut j: usize = scope.len();
            proof {
                assert(entries.subrange(0, j as int) =~= entries);
            }
            while j > 0
                invariant
                    0 < k <= self.content@.len(),
                    *scope == self.content@[k - 1],
                    spec_locate(self@, identifier@) == spec_locate(
                        self@.subrange(0, k as int),
                        identifier@,
                    ),
                    j <= scope@.len(),
                    entries == value_views(scope@),
                    key@ == identifier@,
                    forall|i: int| j <= i < scope@.len() ==> scope@[i]@.identifier != Some(key@),
                    scope_map(entries).contains_key(key@) == scope_map(
                        entries.subrange(0, j as int),
                    ).contains_key(key@),
                    scope_map(entries).contains_key(key@) ==> scope_map(entries)[key@]
                        == scope_map(entries.subrange(0, j as int))[key@],
                decreases j,
            {
                proof {
                    assert(entries.subrange(0, j as int).drop_last() =~= entries.subrange(
                        0,
                        j - 1,
                    ));
                }
                let found = match &scope[j - 1].identifier {
                    Some(name) => *name == key,
                    None => false,
                };
                if found {
                    proof {
                        assert(self@.subrange(0, k as int).last() == scope_map(entries));
                    }
                    return Some((k - 1, j - 1));
                }
                j -= 1;
            }
            proof {
                assert(self@.subrange(0, k as int).last() == scope_map(entries));
                assert(self@.subrange(0, k as int).drop_last() =~= self@.subrange(0, k - 1));
            }
            k -= 1;
        }
        None
    }

    /// The innermost binding of `identifier`, if there is one.
    pub fn get(&self, identifier: &str) -> (r: Option<&LoxVariable>)
        ensures
            match spec_lookup(self@, identifier@) {
                None => r is None,
                Some(v) => r is Some && r->Some_0@ == v && v.identifier == Some(identifier@),
            },
    {
        match self.locate(identifier) {
            None => None,
            Some((k, j)) => Some(&self.content[k][j]),
        }
    }

    /// Puts `value` in the place of the innermost binding of `identifier`
    /// and says whether there was one.
    #[verifier::rlimit(40)]
    pub fn rebind(&mut self, identifier: &str, value: LoxVariable) -> (r: bool)
        requires
            value@.identifier == Some(identifier@),
        ensures
            r == (spec_locate(old(self)@, identifier@) is Some),
            final(self)@ == spec_rebind(old(self)@, identifier@, value@),
    {
        match self.locate(identifier) {
            None => false,
            Some((k, j)) => {
                let ghost before = self.content@;
                let ghost entries = value_views(before[k as int]@);
                let mut scope = self.content.remove(k);
                scope.set(j, value);
                proof {
                    lemma_scope_map_update(entries, j as int, value@);
                    assert(value_views(scope@) =~= entries.update(j as int, value@));
                }
                self.content.insert(k, scope);
                assert(self@ =~= spec_rebind(old(self)@, identifier@, value@));
                true
            },
        }
    }
}

/// A copy of the innermost binding of `identifier`. A name that nothing
/// binds is an error that points at `node`.
pub fn stack_get_variable(stack: &Stack, identifier: &str, node: &AST_Node) -> (r: Result<
    LoxVariable,
    ErrorLox,
>)
    ensures
        match spec_lookup(stack@, identifier@) {
            Some(v) => r is Ok && r->Ok_0@ == v && v.identifier == Some(identifier@),
            None => r is Err && r->Err_0@ == spec_undeclared_error(
                identifier@,
                node@.token.line,
                node@.token.column,
                node@.token.source_file,
            ),
        },
{
    match stack.get(identifier) {
        None => {
            let mut description = String::from_str("Can not find value '");
            description.append(identifier);
            description.append("' in scope. Variable can only be used after declaration.");
            Err(ErrorLox::from_ast_node(node, description.as_str()))
        },
        Some(a) => Ok(a.duplicate()),
    }
}

/// Binds the name of `v` to `v` in the innermost scope.
pub fn stack_push(stack: &mut Stack, v: LoxVariable)
    requires
        old(stack)@.len() > 0,
    ensures
        final(stack)@ == spec_push(old(stack)@, v@),
{
    stack.push(v);
}

/// Opens a scope.
pub fn stack_new_scope(stack: &mut Stack)
    ensures
        final(stack)@ == spec_new_scope(old(stack)@),
{
    stack.new_scope();
}

/// Closes the innermost scope.
pub fn stack_pop_scope(stack: &mut Stack)
    ensures
        final(stack)@ == spec_pop_scope(old(stack)@),
{
    stack.pop_scope();
}

/// Opening a scope, binding names in it and closing it again leaves the
/// stack as it was: a declaration inside a block does not reach the scopes
/// around the block.
pub proof fn lemma_declaration_stays_in_block(stack: Seq<ScopeView>, value: ValueView)
    ensures
        spec_pop_scope(spec_push(spec_new_scope(stack), value)) == stack,
        spec_pop_scope(spec_new_scope(stack)) == stack,
{
    assert(spec_pop_scope(spec_new_scope(stack)) =~= stack);
    assert(spec_pop_scope(spec_push(spec_new_scope(stack), value)) =~= stack);
}

/// A binding made in an inner scope hides the outer binding of the same
/// name for as long as the inner scope is open, and leaves it untouched.
pub proof fn lemma_shadowing(stack: Seq<ScopeView>, value: ValueView)
    requires
        value.identifier is Some,
    ensures
        spec_lookup(spec_push(spec_new_scope(stack), value), value.identifier->Some_0) == Some(
            value,
        ),
        spec_lookup(
            spec_pop_scope(spec_push(spec_new_scope(stack), value)),
            value.identifier->Some_0,
        ) == spec_lookup(stack, value.identifier->Some_0),
{
    lemma_declaration_stays_in_block(stack, value);
}

} // verus!
