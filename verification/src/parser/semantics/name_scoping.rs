use vstd::prelude::*;

use crate::syntax::ast::{AstNodeIndex, Type};
use crate::parser::semantics::traits::AstContext;
use crate::utils::name_map::{str_eq, NameMap};

verus! {

/// The names an `impl` block declares for a struct.
pub struct ImplBlock {
    pub bound_struct: String,
    pub ast_node_index: AstNodeIndex,
    pub struct_ast_node_index: AstNodeIndex,
    pub static_variables: NameMap<AstNodeIndex>,
    pub const_variables: NameMap<AstNodeIndex>,
    pub functions: NameMap<AstNodeIndex>,
    pub methods: NameMap<AstNodeIndex>,
}

impl ImplBlock {
    /// Whether the block declares a function or a method called `name`.
    pub open spec fn spec_contains_function(&self, name: Seq<char>) -> bool {
        self.functions@.dom().contains(name) || self.methods@.dom().contains(name)
    }

    /// Whether the block declares anything called `name`.
    pub open spec fn spec_contains_name(&self, name: Seq<char>) -> bool {
        self.static_variables@.dom().contains(name) || self.const_variables@.dom().contains(name)
            || self.spec_contains_function(name)
    }

    /// A block for `bound_struct` that declares nothing yet.
    pub fn new(
        bound_struct: String,
        ast_node_index: AstNodeIndex,
        struct_ast_node_index: AstNodeIndex,
    ) -> (r: Self)
        ensures
            r.bound_struct == bound_struct,
            r.ast_node_index == ast_node_index,
            r.struct_ast_node_index == struct_ast_node_index,
            r.static_variables@ == Map::<Seq<char>, AstNodeIndex>::empty(),
            r.const_variables@ == Map::<Seq<char>, AstNodeIndex>::empty(),
            r.functions@ == Map::<Seq<char>, AstNodeIndex>::empty(),
            r.methods@ == Map::<Seq<char>, AstNodeIndex>::empty(),
    {
        Self {
            bound_struct,
            ast_node_index,
            struct_ast_node_index,
            static_variables: NameMap::new(),
            const_variables: NameMap::new(),
            functions: NameMap::new(),
            methods: NameMap::new(),
        }
    }

    pub fn contains_function(&self, name: &str) -> (r: bool)
        ensures
            r == self.spec_contains_function(name@),
    {
        self.functions.contains_key(name) || self.methods.contains_key(name)
    }

    pub fn contains_name(&self, name: &str) -> (r: bool)
        ensures
            r == self.spec_contains_name(name@),
    {
        self.static_variables.contains_key(name) || self.const_variables.contains_key(name)
            || self.contains_function(name)
    }
}

/// A struct declared in a scope.
pub struct StructDeclaration {
    name: String,
    ast_node_index: AstNodeIndex,
    fields: NameMap<Type>,
}

impl StructDeclaration {
    /// The struct's name.
    pub closed spec fn declared_name(&self) -> Seq<char> {
        self.name@
    }

    /// The node that declares the struct.
    pub closed spec fn declaration_node(&self) -> AstNodeIndex {
        self.ast_node_index
    }

    /// The struct's fields recorded so far.
    pub closed spec fn declared_fields(&self) -> Map<Seq<char>, Type> {
        self.fields@
    }

    /// A declaration of struct `name` with no fields recorded yet.
    pub fn new(name: String, ast_node_index: AstNodeIndex) -> (r: Self)
        ensures
            r.declared_name() == name@,
            r.declaration_node() == ast_node_index,
            r.declared_fields() == Map::<Seq<char>, Type>::empty(),
    {
        Self { name, ast_node_index, fields: NameMap::new() }
    }
}

/// The names declared in one scope.
pub struct Scope {
    pub parent_scope: Option<usize>,
    pub static_declarations: NameMap<AstNodeIndex>,
    pub const_declarations: NameMap<AstNodeIndex>,
    pub functions: NameMap<AstNodeIndex>,
    pub structs: NameMap<AstNodeIndex>,
    pub variables: NameMap<Vec<AstNodeIndex>>,
    pub impl_blocks: NameMap<ImplBlock>,
}

impl Scope {
    /// Whether the scope declares nothing.
    pub open spec fn is_empty_scope(&self) -> bool {
        &&& self.static_declarations@ == Map::<Seq<char>, AstNodeIndex>::empty()
        &&& self.const_declarations@ == Map::<Seq<char>, AstNodeIndex>::empty()
        &&& self.functions@ == Map::<Seq<char>, AstNodeIndex>::empty()
        &&& self.structs@ == Map::<Seq<char>, AstNodeIndex>::empty()
        &&& self.variables@ == Map::<Seq<char>, Vec<AstNodeIndex>>::empty()
        &&& self.impl_blocks@ == Map::<Seq<char>, ImplBlock>::empty()
    }

    /// Whether the scope declares a variable, function, struct, static or const called `name`.
    pub open spec fn defines(&self, name: Seq<char>) -> bool {
        self.variables@.dom().contains(name) || self.functions@.dom().contains(name)
            || self.structs@.dom().contains(name) || self.static_declarations@.dom().contains(name)
            || self.const_declarations@.dom().contains(name)
    }

    /// Whether the scope has an `impl` block for `struct_name` that declares `name`.
    pub open spec fn impl_block_defines(&self, name: Seq<char>, struct_name: Seq<char>) -> bool {
        self.impl_blocks@.dom().contains(struct_name)
            && self.impl_blocks@[struct_name].spec_contains_name(name)
    }

    /// An empty scope inside `parent_scope`.
    pub fn new(parent_scope: Option<usize>) -> (r: Self)
        ensures
            r.parent_scope == parent_scope,
            r.is_empty_scope(),
    {
        Scope {
            parent_scope,
            static_declarations: NameMap::new(),
            const_declarations: NameMap::new(),
            functions: NameMap::new(),
            structs: NameMap::new(),
            variables: NameMap::new(),
            impl_blocks: NameMap::new(),
        }
    }

    pub fn find_in_scope(&self, name: &str) -> (r: bool)
        ensures
            r == self.defines(name@),
    {
        self.variables.contains_key(name) || self.functions.contains_key(name)
            || self.structs.contains_key(name) || self.static_declarations.contains_key(name)
            || self.const_declarations.contains_key(name)
    }

    /// The `impl` block for `struct_name`, if it declares `name`.
    pub fn find_in_impl_block(&self, name: &str, struct_name: &str) -> (r: Option<&ImplBlock>)
        ensures
            r == (if self.impl_block_defines(name@, struct_name@) {
                Some(&self.impl_blocks@[struct_name@])
            } else {
                None
            }),
    {
        let impl_block = match self.impl_blocks.get(struct_name) {
            Some(b) => b,
            None => return None,
        };
        if impl_block.contains_name(name) {
            Some(impl_block)
        } else {
            None
        }
    }

    /// The `impl` block for `struct_name` to change in place, if it declares `name`.
    pub fn find_in_impl_block_mut(&mut self, name: &str, struct_name: &str) -> (r: Option<&mut ImplBlock>)
        ensures
            r is Some <==> old(self).impl_block_defines(name@, struct_name@),
            r is None ==> *final(self) == *old(self),
            r matches Some(b) ==> {
                &&& *b == old(self).impl_blocks@[struct_name@]
                &&& final(self).impl_blocks@ == old(self).impl_blocks@.insert(struct_name@, *final(b))
                &&& final(self).parent_scope == old(self).parent_scope
                &&& final(self).static_declarations == old(self).static_declarations
                &&& final(self).const_declarations == old(self).const_declarations
                &&& final(self).functions == old(self).functions
                &&& final(self).structs == old(self).structs
                &&& final(self).variables == old(self).variables
            },
    {
        let found = match self.impl_blocks.get(struct_name) {
            Some(b) => b.contains_name(name),
            None => false,
        };
        if !found {
            return None;
        }
        self.impl_blocks.get_mut(struct_name)
    }
}

/// Why a declaration cannot be added to a scope.
#[derive(Debug, Clone, Copy, PartialEq, Eq, Structural)]
pub enum ScopeError {
    NameIsAlreadyDefined,
}

pub type ScopeResult = Result<(), ScopeError>;

/// The scopes of a program and how they nest: `tree[i]` is the scope that
/// holds scope `i`; scope 0 holds the top level.
pub struct ScopeTree {
    pub tree: Vec<usize>,
    pub scopes: Vec<Scope>,
    pub scope_id_by_node_index: Vec<usize>,
}

impl ScopeTree {
    /// Every scope but the top level lies in a scope made before it.
    pub open spec fn wf(&self) -> bool {
        &&& self.scopes@.len() >= 1
        &&& self.tree@.len() == self.scopes@.len()
        &&& self.tree@[0] == 0
        &&& forall|i: int| 0 < i < self.tree@.len() ==> #[trigger] self.tree@[i] < i
    }

    /// Whether scope `scope_index` exists and declares `name`.
    pub open spec fn spec_scope_contains(&self, scope_index: int, name: Seq<char>) -> bool {
        0 <= scope_index < self.scopes@.len() && self.scopes@[scope_index].defines(name)
    }

    /// Whether `ancestor` is `scope` or holds it, directly or not.
    pub open spec fn is_ancestor(&self, ancestor: int, scope: int) -> bool
        decreases scope,
    {
        if ancestor == scope {
            true
        } else if 0 < scope < self.tree@.len() && self.tree@[scope] < scope {
            self.is_ancestor(ancestor, self.tree@[scope] as int)
        } else {
            false
        }
    }

    /// The nearest scope from `start` outward that declares `name`.
    pub open spec fn spec_find_scope_index(&self, start: int, name: Seq<char>) -> Option<int>
        decreases start,
    {
        if self.spec_scope_contains(start, name) {
            Some(start)
        } else if 0 < start < self.tree@.len() && self.tree@[start] < start {
            self.spec_find_scope_index(self.tree@[start] as int, name)
        } else {
            None
        }
    }

    /// A tree with only the top-level scope, able to record the scope of
    /// `node_count` syntax tree nodes.
    pub fn new(node_count: usize) -> (r: Self)
        ensures
            r.wf(),
            r.tree@ == seq![0usize],
            r.scopes@.len() == 1,
            r.scopes@[0].parent_scope is None,
            r.scopes@[0].is_empty_scope(),
            r.scope_id_by_node_index@ == Seq::new(node_count as nat, |i: int| 0usize),
    {
        let mut scopes = Vec::new();
        scopes.push(Scope::new(None));
        let mut scope_id_by_node_index: Vec<usize> = Vec::new();
        let mut i: usize = 0;
        while i < node_count
            invariant
                i <= node_count,
                scope_id_by_node_index@ == Seq::new(i as nat, |j: int| 0usize),
            decreases node_count - i,
        {
            scope_id_by_node_index.push(0);
            i = i + 1;
            assert(scope_id_by_node_index@ =~= Seq::new(i as nat, |j: int| 0usize));
        }
        let mut tree = Vec::new();
        tree.push(0);
        Self { tree, scopes, scope_id_by_node_index }
    }

    /// Whether scope `scope_id` declares a variable called `name`.
    pub fn is_variable_defined(&self, scope_id: usize, name: &str) -> (r: bool)
        requires
            scope_id < self.scopes@.len(),
        ensures
            r == self.scopes@[scope_id as int].variables@.dom().contains(name@),
    {
        self.scopes[scope_id].variables.contains_key(name)
    }

    /// Records that node `variable_node_id` declares variable `variable_name` in scope `scope_id`.
    pub fn add_variable(&mut self, scope_id: usize, variable_name: String, variable_node_id: AstNodeIndex)
        requires
            scope_id < old(self).scopes@.len(),
            variable_node_id.0 < old(self).scope_id_by_node_index@.len(),
        ensures
            final(self).tree == old(self).tree,
            final(self).scopes@.len() == old(self).scopes@.len(),
            forall|i: int| 0 <= i < old(self).scopes@.len() && i != scope_id ==> final(self).scopes@[i] == old(self).scopes@[i],
            final(self).scope_id_by_node_index@ == old(self).scope_id_by_node_index@.update(variable_node_id.0 as int, scope_id),
            ({
                let before = old(self).scopes@[scope_id as int];
                let after = final(self).scopes@[scope_id as int];
                &&& after.parent_scope == before.parent_scope
                &&& after.static_declarations == before.static_declarations
                &&& after.const_declarations == before.const_declarations
                &&& after.functions == before.functions
                &&& after.structs == before.structs
                &&& after.impl_blocks == before.impl_blocks
                &&& after.variables@.dom() == before.variables@.dom().insert(variable_name@)
                &&& forall|n: Seq<char>| n != variable_name@ ==> after.variables@.dom().contains(n) ==> after.variables@[n] == before.variables@[n]
                &&& after.variables@[variable_name@]@ == (if before.variables@.dom().contains(variable_name@) {
                        before.variables@[variable_name@]@
                    } else {
                        Seq::empty()
                    }).push(variable_node_id)
            }),
            final(self).spec_find_scope_index(scope_id as int, variable_name@) == Some(scope_id as int),
            forall|start: int, n: Seq<char>| n != variable_name@ ==>
                #[trigger] final(self).spec_find_scope_index(start, n) == old(self).spec_find_scope_index(start, n),
    {
        let scope = &mut self.scopes[scope_id];
        match scope.variables.get_mut(variable_name.as_str()) {
            Some(nodes) => {
                nodes.push(variable_node_id);
            },
            None => {
                let mut nodes = Vec::new();
                nodes.push(variable_node_id);
                scope.variables.insert(variable_name, nodes);
            },
        }
        self.scope_id_by_node_index.set(variable_node_id.0, scope_id);
        proof {
            ScopeTree::lemma_declaring_keeps_other_lookups(*old(self), *self, scope_id as int, variable_name@);
        }
    }

    /// `after` is `before` with only scope `scope_id` changed.
    pub open spec fn same_but_scope(before: &ScopeTree, after: &ScopeTree, scope_id: int) -> bool {
        &&& after.tree == before.tree
        &&& after.scopes@.len() == before.scopes@.len()
        &&& forall|i: int| 0 <= i < before.scopes@.len() && i != scope_id ==> after.scopes@[i] == before.scopes@[i]
    }

    /// Records the declaration `name` made by node `node_id` in scope
    /// `scope_id` into `table`, unless the scope already declares `name`.
    pub open spec fn declared_in(
        before: &ScopeTree,
        after: &ScopeTree,
        scope_id: int,
        name: Seq<char>,
        node_id: AstNodeIndex,
        r: ScopeResult,
    ) -> bool {
        if before.spec_scope_contains(scope_id, name) {
            &&& r == Err::<(), ScopeError>(ScopeError::NameIsAlreadyDefined)
            &&& after == before
        } else {
            &&& r is Ok
            &&& ScopeTree::same_but_scope(before, after, scope_id)
            &&& after.scope_id_by_node_index@ == before.scope_id_by_node_index@.update(node_id.0 as int, scope_id as usize)
        }
    }

    fn check_if_already_defined(&self, scope_id: usize, name: &str) -> (r: ScopeResult)
        ensures
            r is Err <==> self.spec_scope_contains(scope_id as int, name@),
            r is Err ==> r == Err::<(), ScopeError>(ScopeError::NameIsAlreadyDefined),
    {
        if self.scope_contains(scope_id, name) {
            return Err(ScopeError::NameIsAlreadyDefined);
        }
        Ok(())
    }

    /// Declares const `name`, made by node `node_id`, in scope `scope_id`,
    /// unless the scope already declares that name.
    pub fn add_const(&mut self, scope_id: usize, name: String, node_id: AstNodeIndex) -> (r: ScopeResult)
        requires
            scope_id < old(self).scopes@.len(),
            node_id.0 < old(self).scope_id_by_node_index@.len(),
        ensures
            ScopeTree::declared_in(old(self), final(self), scope_id as int, name@, node_id, r),
            final(self).spec_find_scope_index(scope_id as int, name@) == Some(scope_id as int),
            forall|start: int, n: Seq<char>| n != name@ ==>
                #[trigger] final(self).spec_find_scope_index(start, n) == old(self).spec_find_scope_index(start, n),
            r is Ok ==> {
                let before = old(self).scopes@[scope_id as int];
                let after = final(self).scopes@[scope_id as int];
                &&& after.const_declarations@ == before.const_declarations@.insert(name@, node_id)
                &&& after.parent_scope == before.parent_scope
                &&& after.static_declarations == before.static_declarations
                &&& after.functions == before.functions
                &&& after.structs == before.structs
                &&& after.variables == before.variables
                &&& after.impl_blocks == before.impl_blocks
            },
    {
        if let Err(e) = self.check_if_already_defined(scope_id, name.as_str()) {
            return Err(e);
        }
        self.scopes[scope_id].const_declarations.insert(name, node_id);
        self.scope_id_by_node_index.set(node_id.0, scope_id);
        proof {
            ScopeTree::lemma_declaring_keeps_other_lookups(*old(self), *self, scope_id as int, name@);
        }
        Ok(())
    }

    /// Declares static `name`, made by node `node_id`, in scope `scope_id`,
    /// unless the scope already declares that name. The declaration is kept
    /// with the scope's consts.
    pub fn add_static(&mut self, scope_id: usize, name: String, node_id: AstNodeIndex) -> (r: ScopeResult)
        requires
            scope_id < old(self).scopes@.len(),
            node_id.0 < old(self).scope_id_by_node_index@.len(),
        ensures
            ScopeTree::declared_in(old(self), final(self), scope_id as int, name@, node_id, r),
            final(self).spec_find_scope_index(scope_id as int, name@) == Some(scope_id as int),
            forall|start: int, n: Seq<char>| n != name@ ==>
                #[trigger] final(self).spec_find_scope_index(start, n) == old(self).spec_find_scope_index(start, n),
            r is Ok ==> {
                let before = old(self).scopes@[scope_id as int];
                let after = final(self).scopes@[scope_id as int];
                &&& after.const_declarations@ == before.const_declarations@.insert(name@, node_id)
                &&& after.parent_scope == before.parent_scope
                &&& after.static_declarations == before.static_declarations
                &&& after.functions == before.functions
                &&& after.structs == before.structs
                &&& after.variables == before.variables
                &&& after.impl_blocks == before.impl_blocks
            },
    {
        if let Err(e) = self.check_if_already_defined(scope_id, name.as_str()) {
            return Err(e);
        }
        self.scopes[scope_id].const_declarations.insert(name, node_id);
        self.scope_id_by_node_index.set(node_id.0, scope_id);
        proof {
            ScopeTree::lemma_declaring_keeps_other_lookups(*old(self), *self, scope_id as int, name@);
        }
        Ok(())
    }

    /// Declares function `name`, made by node `node_id`, in scope
    /// `scope_id`, unless the scope already declares that name.
    pub(crate) fn add_function(&mut self, scope_id: usize, name: String, node_id: AstNodeIndex) -> (r: ScopeResult)
        requires
            scope_id < old(self).scopes@.len(),
            node_id.0 < old(self).scope_id_by_node_index@.len(),
        ensures
            ScopeTree::declared_in(old(self), final(self), scope_id as int, name@, node_id, r),
            final(self).spec_find_scope_index(scope_id as int, name@) == Some(scope_id as int),
            forall|start: int, n: Seq<char>| n != name@ ==>
                #[trigger] final(self).spec_find_scope_index(start, n) == old(self).spec_find_scope_index(start, n),
            r is Ok ==> {
                let before = old(self).scopes@[scope_id as int];
                let after = final(self).scopes@[scope_id as int];
                &&& after.functions@ == before.functions@.insert(name@, node_id)
                &&& after.parent_scope == before.parent_scope
                &&& after.static_declarations == before.static_declarations
                &&& after.const_declarations == before.const_declarations
                &&& after.structs == before.structs
                &&& after.variables == before.variables
                &&& after.impl_blocks == before.impl_blocks
            },
    {
        if let Err(e) = self.check_if_already_defined(scope_id, name.as_str()) {
            return Err(e);
        }
        self.scopes[scope_id].functions.insert(name, node_id);
        self.scope_id_by_node_index.set(node_id.0, scope_id);
        proof {
            ScopeTree::lemma_declaring_keeps_other_lookups(*old(self), *self, scope_id as int, name@);
        }
        Ok(())
    }

    /// Whether some scope has an `impl` block for `struct_name` that declares `name`.
    pub fn find_in_all_impl_blocks(&self, name: &str, struct_name: &str) -> (r: bool)
        ensures
            r == exists|i: int| 0 <= i < self.scopes@.len() && #[trigger] self.scopes@[i].impl_block_defines(name@, struct_name@),
    {
        let mut i: usize = 0;
        while i < self.scopes.len()
            invariant
                i <= self.scopes@.len(),
                forall|j: int| 0 <= j < i ==> !#[trigger] self.scopes@[j].impl_block_defines(name@, struct_name@),
            decreases self.scopes@.len() - i,
        {
            let scope = &self.scopes[i];
            if !scope.impl_blocks.is_empty() && scope.find_in_impl_block(name, struct_name).is_some() {
                return true;
            }
            proof {
                if scope.impl_block_defines(name@, struct_name@) {
                    assert(scope.impl_blocks@.dom().contains(struct_name@));
                }
            }
            i = i + 1;
        }
        false
    }

    /// Opens a scope inside `parent` (inside the top level when `None`);
    /// returns its number and the scope.
    pub fn stack_scope(&mut self, parent: Option<usize>) -> (r: (usize, &mut Scope))
        requires
            old(self).wf(),
            parent matches Some(p) ==> p < old(self).scopes@.len(),
        ensures
            final(self).wf(),
            r.0 == old(self).scopes@.len(),
            r.1.parent_scope == parent,
            r.1.is_empty_scope(),
            final(self).scopes@ == old(self).scopes@.push(*final(r.1)),
            final(self).tree@ == old(self).tree@.push(match parent { Some(p) => p, None => 0 }),
            final(self).scope_id_by_node_index == old(self).scope_id_by_node_index,
            forall|i: int, name: Seq<char>| 0 <= i < old(self).scopes@.len() ==>
                #[trigger] final(self).spec_find_scope_index(i, name) == old(self).spec_find_scope_index(i, name),
    {
        self.scopes.push(Scope::new(parent));
        let parent_index = match parent {
            Some(p) => p,
            None => 0,
        };
        self.tree.push(parent_index);
        let idx = self.scopes.len() - 1;
        proof {
            ScopeTree::lemma_find_in_any_extension(*old(self));
        }
        (idx, &mut self.scopes[idx])
    }

    /// Whether scope `scope_index` exists and declares `name`.
    pub fn scope_contains(&self, scope_index: usize, name: &str) -> (r: bool)
        ensures
            r == self.spec_scope_contains(scope_index as int, name@),
    {
        if scope_index >= self.scopes.len() {
            return false;
        }
        self.scopes[scope_index].find_in_scope(name)
    }

    /// The nearest scope from `start_scope` outward that declares `name`.
    pub fn find_scope_index(&self, start_scope: usize, name: &str) -> (r: Option<usize>)
        requires
            self.wf(),
            start_scope < self.scopes@.len(),
        ensures
            r == (match self.spec_find_scope_index(start_scope as int, name@) {
                Some(i) => Some(i as usize),
                None => None::<usize>,
            }),
        decreases start_scope,
    {
        if self.scope_contains(start_scope, name) {
            return Some(start_scope);
        }
        if start_scope == 0 {
            return None;
        }
        let parent_scope = self.tree[start_scope];
        self.find_scope_index(parent_scope, name)
    }

    /// Scope `scope_index`, if it declares `name`.
    pub fn find_in_scope(&self, scope_index: usize, name: &str) -> (r: Option<&Scope>)
        ensures
            r == (if self.spec_scope_contains(scope_index as int, name@) {
                Some(&self.scopes@[scope_index as int])
            } else {
                None
            }),
    {
        if self.scope_contains(scope_index, name) {
            Some(&self.scopes[scope_index])
        } else {
            None
        }
    }

    /// Scope `scope_index` to change in place, if it declares `name`.
    pub fn find_in_scope_mut(&mut self, scope_index: usize, name: &str) -> (r: Option<&mut Scope>)
        ensures
            r is Some <==> old(self).spec_scope_contains(scope_index as int, name@),
            r is None ==> *final(self) == *old(self),
            r matches Some(s) ==> {
                &&& *s == old(self).scopes@[scope_index as int]
                &&& final(self).scopes@ == old(self).scopes@.update(scope_index as int, *final(s))
                &&& final(self).tree == old(self).tree
                &&& final(self).scope_id_by_node_index == old(self).scope_id_by_node_index
            },
    {
        if !self.scope_contains(scope_index, name) {
            return None;
        }
        Some(&mut self.scopes[scope_index])
    }

    /// The most recently opened scope, if it declares `name`.
    pub fn find_in_current_scope(&self, name: &str) -> (r: Option<&Scope>)
        requires
            self.tree@.len() >= 1,
        ensures
            r == (if self.spec_scope_contains(self.tree@.len() - 1, name@) {
                Some(&self.scopes@[self.tree@.len() - 1])
            } else {
                None
            }),
    {
        self.find_in_scope(self.tree.len() - 1, name)
    }

    /// The most recently opened scope to change in place, if it declares `name`.
    pub fn find_in_current_scope_mut(&mut self, name: &str) -> (r: Option<&mut Scope>)
        requires
            old(self).tree@.len() >= 1,
        ensures
            r is Some <==> old(self).spec_scope_contains(old(self).tree@.len() - 1, name@),
            r is None ==> *final(self) == *old(self),
            r matches Some(s) ==> {
                &&& *s == old(self).scopes@[old(self).tree@.len() - 1]
                &&& final(self).scopes@ == old(self).scopes@.update(old(self).tree@.len() - 1, *final(s))
                &&& final(self).tree == old(self).tree
                &&& final(self).scope_id_by_node_index == old(self).scope_id_by_node_index
            },
    {
        let current = self.tree.len() - 1;
        self.find_in_scope_mut(current, name)
    }

    /// The nearest scope from `scope_index` outward that declares `name`,
    /// with its number.
    pub fn find_from_scope(&self, scope_index: usize, name: &str) -> (r: Option<(usize, &Scope)>)
        requires
            self.wf(),
        ensures
            r == (if scope_index < self.scopes@.len() {
                match self.spec_find_scope_index(scope_index as int, name@) {
                    Some(i) => Some((i as usize, &self.scopes@[i])),
                    None => None,
                }
            } else {
                None
            }),
    {
        if scope_index >= self.scopes.len() {
            return None;
        }
        proof {
            self.lemma_find_scope_index_sound(scope_index as int, name@);
        }
        let index = match self.find_scope_index(scope_index, name) {
            Some(index) => index,
            None => return None,
        };
        Some((index, &self.scopes[index]))
    }

    /// The nearest scope from `scope_index` outward that declares `name`,
    /// with its number, to change in place.
    pub fn find_from_scope_mut(&mut self, scope_index: usize, name: &str) -> (r: Option<(usize, &mut Scope)>)
        requires
            old(self).wf(),
        ensures
            r is Some <==> (scope_index < old(self).scopes@.len()
                && old(self).spec_find_scope_index(scope_index as int, name@) is Some),
            r is None ==> *final(self) == *old(self),
            r matches Some((i, s)) ==> {
                &&& old(self).spec_find_scope_index(scope_index as int, name@) == Some(i as int)
                &&& *s == old(self).scopes@[i as int]
                &&& final(self).scopes@ == old(self).scopes@.update(i as int, *final(s))
                &&& final(self).tree == old(self).tree
                &&& final(self).scope_id_by_node_index == old(self).scope_id_by_node_index
            },
    {
        if scope_index >= self.scopes.len() {
            return None;
        }
        proof {
            self.lemma_find_scope_index_sound(scope_index as int, name@);
        }
        let found = self.find_scope_index(scope_index, name);
        if found.is_none() {
            return None;
        }
        let index = found.unwrap();
        Some((index, &mut self.scopes[index]))
    }

    /// The nearest scope from the most recently opened one outward that
    /// declares `name`, with its number.
    pub fn find_from_current_scope(&self, name: &str) -> (r: Option<(usize, &Scope)>)
        requires
            self.wf(),
        ensures
            r == (match self.spec_find_scope_index(self.tree@.len() - 1, name@) {
                Some(i) => Some((i as usize, &self.scopes@[i])),
                None => None,
            }),
    {
        self.find_from_scope(self.tree.len() - 1, name)
    }

    /// The nearest scope from the most recently opened one outward that
    /// declares `name`, with its number, to change in place.
    pub fn find_from_current_scope_mut(&mut self, name: &str) -> (r: Option<(usize, &mut Scope)>)
        requires
            old(self).wf(),
        ensures
            r is Some <==> old(self).spec_find_scope_index(old(self).tree@.len() - 1, name@) is Some,
            r is None ==> *final(self) == *old(self),
            r matches Some((i, s)) ==> {
                &&& old(self).spec_find_scope_index(old(self).tree@.len() - 1, name@) == Some(i as int)
                &&& *s == old(self).scopes@[i as int]
                &&& final(self).scopes@ == old(self).scopes@.update(i as int, *final(s))
                &&& final(self).tree == old(self).tree
                &&& final(self).scope_id_by_node_index == old(self).scope_id_by_node_index
            },
    {
        let current = self.tree.len() - 1;
        self.find_from_scope_mut(current, name)
    }

    /// Looking a name up from a scope gives the same answer in a tree with
    /// more scopes opened after it.
    pub proof fn lemma_find_in_prefix(small: ScopeTree, big: ScopeTree, start: int, name: Seq<char>)
        requires
            small.wf(),
            0 <= start < small.scopes@.len() <= big.scopes@.len(),
            small.tree@.len() <= big.tree@.len(),
            forall|i: int| 0 <= i < small.scopes@.len() ==> big.scopes@[i] == small.scopes@[i],
            forall|i: int| 0 <= i < small.tree@.len() ==> big.tree@[i] == small.tree@[i],
        ensures
            big.spec_find_scope_index(start, name) == small.spec_find_scope_index(start, name),
        decreases start,
    {
        if start > 0 {
            ScopeTree::lemma_find_in_prefix(small, big, small.tree@[start] as int, name);
        }
    }

    /// Lookups of `name` agree in two trees with the same nesting whose
    /// scopes agree on whether they declare `name`.
    pub proof fn lemma_find_same_declarations(a: ScopeTree, b: ScopeTree, start: int, name: Seq<char>)
        requires
            a.tree == b.tree,
            a.scopes@.len() == b.scopes@.len(),
            forall|i: int| 0 <= i < a.scopes@.len() ==> (#[trigger] a.scopes@[i].defines(name) <==> b.scopes@[i].defines(name)),
        ensures
            a.spec_find_scope_index(start, name) == b.spec_find_scope_index(start, name),
        decreases start,
    {
        if 0 < start < a.tree@.len() && a.tree@[start] < start {
            ScopeTree::lemma_find_same_declarations(a, b, a.tree@[start] as int, name);
        }
    }

    /// Declaring a name in a scope changes no lookup of another name.
    pub proof fn lemma_declaring_keeps_other_lookups(a: ScopeTree, b: ScopeTree, scope_id: int, declared: Seq<char>)
        requires
            ScopeTree::same_but_scope(&a, &b, scope_id),
            forall|n: Seq<char>| n != declared ==> (#[trigger] a.scopes@[scope_id].defines(n) <==> b.scopes@[scope_id].defines(n)),
        ensures
            forall|start: int, n: Seq<char>| n != declared ==>
                #[trigger] b.spec_find_scope_index(start, n) == a.spec_find_scope_index(start, n),
    {
        assert forall|start: int, n: Seq<char>| n != declared implies
            #[trigger] b.spec_find_scope_index(start, n) == a.spec_find_scope_index(start, n) by {
            assert forall|i: int| 0 <= i < a.scopes@.len() implies (#[trigger] a.scopes@[i].defines(n) <==> b.scopes@[i].defines(n)) by {
                if i != scope_id {
                    assert(a.scopes@[i] == b.scopes@[i]);
                }
            }
            ScopeTree::lemma_find_same_declarations(a, b, start, n);
        }
    }

    /// `big` is `small` with more scopes opened after its own.
    pub open spec fn extends(small: ScopeTree, big: ScopeTree) -> bool {
        &&& small.scopes@.len() <= big.scopes@.len()
        &&& small.tree@.len() <= big.tree@.len()
        &&& forall|i: int| 0 <= i < small.scopes@.len() ==> big.scopes@[i] == small.scopes@[i]
        &&& forall|i: int| 0 <= i < small.tree@.len() ==> big.tree@[i] == small.tree@[i]
    }

    /// Looking a name up from one of its scopes gives the same answer in
    /// every tree that opens more scopes after them.
    pub proof fn lemma_find_in_any_extension(small: ScopeTree)
        requires
            small.wf(),
        ensures
            forall|big: ScopeTree, start: int, name: Seq<char>|
                ScopeTree::extends(small, big) && 0 <= start < small.scopes@.len() ==>
                #[trigger] big.spec_find_scope_index(start, name) == small.spec_find_scope_index(start, name),
    {
        assert forall|big: ScopeTree, start: int, name: Seq<char>|
            ScopeTree::extends(small, big) && 0 <= start < small.scopes@.len() implies
            #[trigger] big.spec_find_scope_index(start, name) == small.spec_find_scope_index(start, name) by {
            ScopeTree::lemma_find_in_prefix(small, big, start, name);
        }
    }

    /// What the lookup finds is a scope from `start` outward that declares
    /// `name`; when it finds nothing, no scope from `start` outward declares it.
    pub proof fn lemma_find_scope_index_sound(&self, start: int, name: Seq<char>)
        requires
            self.wf(),
            0 <= start < self.scopes@.len(),
        ensures
            match self.spec_find_scope_index(start, name) {
                Some(i) => {
                    &&& 0 <= i <= start
                    &&& self.spec_scope_contains(i, name)
                    &&& self.is_ancestor(i, start)
                },
                None => forall|a: int| #[trigger] self.is_ancestor(a, start) ==> !self.spec_scope_contains(a, name),
            },
        decreases start,
    {
        if !self.spec_scope_contains(start, name) && start > 0 {
            let parent = self.tree@[start] as int;
            self.lemma_find_scope_index_sound(parent, name);
            if self.spec_find_scope_index(start, name) is None {
                assert forall|a: int| #[trigger] self.is_ancestor(a, start) implies !self.spec_scope_contains(a, name) by {
                    if a != start {
                        assert(self.is_ancestor(a, parent));
                    }
                }
            }
        } else if !self.spec_scope_contains(start, name) {
            assert forall|a: int| #[trigger] self.is_ancestor(a, start) implies !self.spec_scope_contains(a, name) by {
            }
        }
    }
}

/// Where the struct an `impl` block is for was declared, and where the block is.
pub struct StructImplView {
    pub struct_name: String,
    pub struct_node_index: AstNodeIndex,
    pub struct_scope_index: usize,
    pub impl_block_node_index: AstNodeIndex,
    pub impl_block_scope_index: usize,
}

impl StructImplView {
    pub fn new(
        struct_name: String,
        struct_node_index: AstNodeIndex,
        struct_scope_index: usize,
        impl_block_node_index: AstNodeIndex,
        impl_block_scope_index: usize,
    ) -> (r: Self)
        ensures
            r.struct_name == struct_name,
            r.struct_node_index == struct_node_index,
            r.struct_scope_index == struct_scope_index,
            r.impl_block_node_index == impl_block_node_index,
            r.impl_block_scope_index == impl_block_scope_index,
    {
        Self {
            struct_name,
            struct_node_index,
            struct_scope_index,
            impl_block_node_index,
            impl_block_scope_index,
        }
    }
}

/// The scopes found so far and the scope being read.
pub struct NameScopingContext {
    pub local_scopes: ScopeTree,
    current_scope: usize,
    struct_impl_view: Vec<StructImplView>,
    is_within_impl_block: bool,
}

impl NameScopingContext {
    /// The number of the scope being read.
    pub closed spec fn current_scope_index(&self) -> int {
        self.current_scope as int
    }

    /// The scopes are well nested, the scope being read exists, every
    /// `impl` block entered is recorded in its scope, and inside an `impl`
    /// block there is one entered.
    pub closed spec fn wf(&self) -> bool {
        &&& self.local_scopes.wf()
        &&& self.current_scope < self.local_scopes.scopes@.len()
        &&& forall|i: int| 0 <= i < self.struct_impl_view@.len() ==> {
            let view = #[trigger] self.struct_impl_view@[i];
            &&& view.struct_scope_index < self.local_scopes.scopes@.len()
            &&& view.impl_block_scope_index < self.local_scopes.scopes@.len()
            &&& self.local_scopes.scopes@[view.impl_block_scope_index as int].impl_blocks@.dom().contains(view.struct_name@)
        }
        &&& self.is_within_impl_block ==> self.struct_impl_view@.len() > 0
    }

    /// The number of syntax tree nodes whose scope can be recorded.
    pub closed spec fn node_count(&self) -> int {
        self.local_scopes.scope_id_by_node_index@.len() as int
    }

    /// Whether the pass is inside an `impl` block.
    pub closed spec fn within_impl_block(&self) -> bool {
        self.is_within_impl_block
    }

    /// The `impl` block entered last: the name of its struct, the scope that
    /// declares the struct and the scope of the block.
    pub closed spec fn bound_struct(&self) -> Option<(Seq<char>, int, int)> {
        if self.struct_impl_view@.len() > 0 {
            let view = self.struct_impl_view@.last();
            Some((view.struct_name@, view.struct_scope_index as int, view.impl_block_scope_index as int))
        } else {
            None
        }
    }

    /// The scopes found so far.
    pub closed spec fn scope_tree(&self) -> ScopeTree {
        self.local_scopes
    }

    /// The context before reading a program whose syntax tree has `node_count` nodes.
    pub fn new(node_count: usize) -> (r: Self)
        ensures
            r.scope_tree().wf(),
            r.scope_tree().scopes@.len() == 1,
            r.scope_tree().scopes@[0].is_empty_scope(),
            r.scope_tree().scope_id_by_node_index@.len() == node_count,
            r.current_scope_index() == 0,
            r.wf(),
            r.node_count() == node_count,
            !r.within_impl_block(),
            r.bound_struct() is None,
    {
        Self {
            local_scopes: ScopeTree::new(node_count),
            current_scope: 0,
            struct_impl_view: Vec::new(),
            is_within_impl_block: false,
        }
    }

    /// Scope `scope_index`.
    pub fn get_scope(&self, scope_index: usize) -> (r: &Scope)
        requires
            scope_index < self.scope_tree().scopes@.len(),
        ensures
            *r == self.scope_tree().scopes@[scope_index as int],
    {
        &self.local_scopes.scopes[scope_index]
    }

    /// Scope `scope_index`, to change in place.
    pub fn get_scope_mut(&mut self, scope_index: usize) -> (r: &mut Scope)
        requires
            scope_index < old(self).scope_tree().scopes@.len(),
        ensures
            *r == old(self).scope_tree().scopes@[scope_index as int],
            final(self).scope_tree().scopes@ == old(self).scope_tree().scopes@.update(scope_index as int, *final(r)),
            final(self).scope_tree().tree == old(self).scope_tree().tree,
            final(self).scope_tree().scope_id_by_node_index == old(self).scope_tree().scope_id_by_node_index,
            final(self).current_scope_index() == old(self).current_scope_index(),
    {
        &mut self.local_scopes.scopes[scope_index]
    }

    /// The scope being read.
    pub fn get_current_scope(&self) -> (r: &Scope)
        requires
            self.current_scope_index() < self.scope_tree().scopes@.len(),
        ensures
            *r == self.scope_tree().scopes@[self.current_scope_index()],
    {
        self.get_scope(self.current_scope)
    }

    /// The scope being read, to change in place.
    pub fn get_current_scope_mut(&mut self) -> (r: &mut Scope)
        requires
            old(self).current_scope_index() < old(self).scope_tree().scopes@.len(),
        ensures
            *r == old(self).scope_tree().scopes@[old(self).current_scope_index()],
            final(self).scope_tree().scopes@ == old(self).scope_tree().scopes@.update(old(self).current_scope_index(), *final(r)),
            final(self).scope_tree().tree == old(self).scope_tree().tree,
            final(self).scope_tree().scope_id_by_node_index == old(self).scope_tree().scope_id_by_node_index,
            final(self).current_scope_index() == old(self).current_scope_index(),
    {
        let current = self.current_scope;
        self.get_scope_mut(current)
    }
}

impl AstContext for NameScopingContext {}


/// Why the naming pass refuses a declaration.
#[derive(Debug, Clone, Copy, PartialEq, Eq, Structural)]
pub enum NameScopingError {
    /// The struct of the enclosing `impl` block is not declared where it was found.
    StructNotFoundForFunction,
    /// The struct's `impl` blocks already declare a function of that name.
    DuplicatedImplFunction,
    /// The struct's `impl` blocks already declare a method of that name.
    DuplicatedImplMethod,
    /// The scope already declares the function's name.
    DuplicatedFunction,
    /// Two parameters have the same name.
    DuplicatedParameter,
    /// A `let` would hide a declaration of the same scope.
    LetShadowsDeclaration,
    /// The scope already declares the static's name.
    StaticRedefined,
    /// The scope already declares the const's name.
    ConstRedefined,
    /// The scope already declares the struct's name.
    StructRedefined,
    /// No scope declares the name an `impl` block is for.
    NameNotFound,
    /// The name an `impl` block is for is not a struct.
    StructNotFound,
}

/// Whether two of the parameters have the same name.
pub open spec fn has_duplicate_names(arguments: Seq<(String, AstNodeIndex)>) -> bool {
    exists|i: int, j: int| 0 <= i < j < arguments.len() && arguments[i].0@ == arguments[j].0@
}

/// Whether every parameter's node can have its scope recorded.
pub open spec fn nodes_below(arguments: Seq<(String, AstNodeIndex)>, node_count: int) -> bool {
    forall|i: int| 0 <= i < arguments.len() ==> (#[trigger] arguments[i]).1.0 < node_count
}

/// Whether the scope declares exactly the parameters as variables, each
/// with its own node.
pub open spec fn declares_parameters(scope: Scope, arguments: Seq<(String, AstNodeIndex)>) -> bool {
    &&& forall|n: Seq<char>| #[trigger] scope.variables@.dom().contains(n)
        <==> exists|i: int| 0 <= i < arguments.len() && arguments[i].0@ == n
    &&& forall|i: int| 0 <= i < arguments.len() ==> #[trigger] scope.variables@[arguments[i].0@]@ == seq![arguments[i].1]
}

/// Whether the parameters have the same name somewhere.
fn has_duplicate_parameter(arguments: &Vec<(String, AstNodeIndex)>) -> (r: bool)
    ensures
        r == has_duplicate_names(arguments@),
{
    let mut j: usize = 0;
    while j < arguments.len()
        invariant
            j <= arguments@.len(),
            forall|a: int, b: int| 0 <= a < b < j ==> arguments@[a].0@ != arguments@[b].0@,
        decreases arguments@.len() - j,
    {
        let mut i: usize = 0;
        while i < j
            invariant
                i <= j < arguments@.len(),
                forall|a: int| 0 <= a < i ==> arguments@[a].0@ != arguments@[j as int].0@,
            decreases j - i,
        {
            if str_eq(arguments[i].0.as_str(), arguments[j].0.as_str()) {
                return true;
            }
            i = i + 1;
        }
        j = j + 1;
    }
    false
}

impl NameScopingContext {
    /// The impl blocks kept in every scope of `a` are still in `b`, and `b`
    /// has at least the scopes of `a`.
    pub closed spec fn keeps_impl_blocks(a: ScopeTree, b: ScopeTree) -> bool {
        &&& a.scopes@.len() <= b.scopes@.len()
        &&& forall|k: int| 0 <= k < a.scopes@.len() ==> (#[trigger] b.scopes@[k]).impl_blocks@.dom() == a.scopes@[k].impl_blocks@.dom()
    }

    /// Opens a scope inside the one being read and reads it; gives back the
    /// scope to return to.
    pub fn enter_new_naming_scope(&mut self) -> (previous: usize)
        requires
            old(self).wf(),
        ensures
            final(self).wf(),
            previous == old(self).current_scope_index(),
            final(self).current_scope_index() == old(self).scope_tree().scopes@.len(),
            final(self).scope_tree().tree@ == old(self).scope_tree().tree@.push(previous),
            final(self).scope_tree().scopes@.len() == old(self).scope_tree().scopes@.len() + 1,
            final(self).scope_tree().scopes@.last().parent_scope == Some(previous),
            final(self).scope_tree().scopes@.last().is_empty_scope(),
            forall|i: int| 0 <= i < old(self).scope_tree().scopes@.len() ==> #[trigger] final(self).scope_tree().scopes@[i] == old(self).scope_tree().scopes@[i],
            final(self).node_count() == old(self).node_count(),
            final(self).within_impl_block() == old(self).within_impl_block(),
            final(self).bound_struct() == old(self).bound_struct(),
    {
        let previous = self.current_scope;
        let (new_scope, _) = self.local_scopes.stack_scope(Some(previous));
        self.current_scope = new_scope;
        proof {
            assert(NameScopingContext::keeps_impl_blocks(old(self).local_scopes, self.local_scopes));
        }
        previous
    }

    /// Goes back to reading scope `previous`.
    pub fn leave_naming_scope(&mut self, previous: usize)
        requires
            old(self).wf(),
            previous < old(self).scope_tree().scopes@.len(),
        ensures
            final(self).wf(),
            final(self).current_scope_index() == previous,
            final(self).scope_tree() == old(self).scope_tree(),
            final(self).node_count() == old(self).node_count(),
            final(self).within_impl_block() == old(self).within_impl_block(),
            final(self).bound_struct() == old(self).bound_struct(),
    {
        self.current_scope = previous;
    }

    /// Declares the parameters as variables of the scope just opened.
    fn add_parameters(&mut self, arguments: &Vec<(String, AstNodeIndex)>)
        requires
            old(self).wf(),
            old(self).current_scope == old(self).local_scopes.scopes@.len() - 1,
            old(self).local_scopes.scopes@.last().variables@ == Map::<Seq<char>, Vec<AstNodeIndex>>::empty(),
            !has_duplicate_names(arguments@),
            nodes_below(arguments@, old(self).node_count()),
        ensures
            final(self).wf(),
            final(self).current_scope == old(self).current_scope,
            final(self).local_scopes.tree == old(self).local_scopes.tree,
            final(self).local_scopes.scopes@.len() == old(self).local_scopes.scopes@.len(),
            forall|i: int| 0 <= i < old(self).local_scopes.scopes@.len() - 1 ==> #[trigger] final(self).local_scopes.scopes@[i] == old(self).local_scopes.scopes@[i],
            declares_parameters(final(self).local_scopes.scopes@.last(), arguments@),
            final(self).local_scopes.scopes@.last().parent_scope == old(self).local_scopes.scopes@.last().parent_scope,
            final(self).local_scopes.scopes@.last().static_declarations == old(self).local_scopes.scopes@.last().static_declarations,
            final(self).local_scopes.scopes@.last().const_declarations == old(self).local_scopes.scopes@.last().const_declarations,
            final(self).local_scopes.scopes@.last().functions == old(self).local_scopes.scopes@.last().functions,
            final(self).local_scopes.scopes@.last().structs == old(self).local_scopes.scopes@.last().structs,
            final(self).local_scopes.scopes@.last().impl_blocks == old(self).local_scopes.scopes@.last().impl_blocks,
            final(self).node_count() == old(self).node_count(),
            final(self).is_within_impl_block == old(self).is_within_impl_block,
            final(self).struct_impl_view == old(self).struct_impl_view,
    {
        let scope = self.current_scope;
        let ghost start = self.local_scopes;
        let mut k: usize = 0;
        while k < arguments.len()
            invariant
                k <= arguments@.len(),
                scope == self.current_scope,
                scope == start.scopes@.len() - 1,
                self.wf(),
                self.struct_impl_view == old(self).struct_impl_view,
                self.is_within_impl_block == old(self).is_within_impl_block,
                self.local_scopes.tree == start.tree,
                self.local_scopes.scopes@.len() == start.scopes@.len(),
                self.local_scopes.scope_id_by_node_index@.len() == start.scope_id_by_node_index@.len(),
                start == old(self).local_scopes,
                !has_duplicate_names(arguments@),
                nodes_below(arguments@, start.scope_id_by_node_index@.len() as int),
                forall|i: int| 0 <= i < start.scopes@.len() - 1 ==> #[trigger] self.local_scopes.scopes@[i] == start.scopes@[i],
                declares_parameters(self.local_scopes.scopes@[scope as int], arguments@.take(k as int)),
                self.local_scopes.scopes@[scope as int].parent_scope == start.scopes@.last().parent_scope,
                self.local_scopes.scopes@[scope as int].static_declarations == start.scopes@.last().static_declarations,
                self.local_scopes.scopes@[scope as int].const_declarations == start.scopes@.last().const_declarations,
                self.local_scopes.scopes@[scope as int].functions == start.scopes@.last().functions,
                self.local_scopes.scopes@[scope as int].structs == start.scopes@.last().structs,
                self.local_scopes.scopes@[scope as int].impl_blocks == start.scopes@.last().impl_blocks,
            decreases arguments@.len() - k,
        {
            let ghost before = self.local_scopes;
            let argument = &arguments[k];
            proof {
                assert(arguments@[k as int].1.0 < start.scope_id_by_node_index@.len());
                let prefix = arguments@.take(k as int);
                if before.scopes@[scope as int].variables@.dom().contains(argument.0@) {
                    let i = choose|i: int| 0 <= i < prefix.len() && prefix[i].0@ == argument.0@;
                    assert(arguments@[i].0@ == arguments@[k as int].0@);
                }
            }
            self.local_scopes.add_variable(scope, argument.0.clone(), argument.1);
            proof {
                let after = self.local_scopes.scopes@[scope as int];
                let prefix = arguments@.take(k + 1);
                assert(prefix.take(k as int) == arguments@.take(k as int));
                assert forall|n: Seq<char>| (exists|i: int| 0 <= i < prefix.len() && prefix[i].0@ == n)
                    implies #[trigger] after.variables@.dom().contains(n) by {
                    let i = choose|i: int| 0 <= i < prefix.len() && prefix[i].0@ == n;
                    if i < k {
                        assert(arguments@.take(k as int)[i].0@ == n);
                    }
                }
                assert forall|n: Seq<char>| #[trigger] after.variables@.dom().contains(n)
                    implies exists|i: int| 0 <= i < prefix.len() && prefix[i].0@ == n by {
                    if n != argument.0@ {
                        assert(before.scopes@[scope as int].variables@.dom().contains(n));
                        let i = choose|i: int| 0 <= i < k && arguments@.take(k as int)[i].0@ == n;
                        assert(prefix[i].0@ == n);
                    } else {
                        assert(prefix[k as int].0@ == n);
                    }
                }
                assert forall|i: int| 0 <= i < prefix.len() implies #[trigger] after.variables@[prefix[i].0@]@ == seq![prefix[i].1] by {
                    if i < k {
                        assert(arguments@[i].0@ != arguments@[k as int].0@);
                        assert(arguments@.take(k as int)[i] == prefix[i]);
                    }
                }
                assert(NameScopingContext::keeps_impl_blocks(before, self.local_scopes));
            }
            k = k + 1;
        }
        proof {
            assert(arguments@.take(k as int) == arguments@);
        }
    }
}

/// The naming pass: it records every declaration in the scope it belongs
/// to, and refuses declarations that clash.
#[derive(Debug, Default)]
pub struct NameScopingSemantics;


/// `b` is `a` with only the scope being read changed, in its variables,
/// consts or statics.
pub open spec fn changed_current_declarations(a: &NameScopingContext, b: &NameScopingContext) -> bool {
    &&& b.wf()
    &&& b.current_scope_index() == a.current_scope_index()
    &&& b.node_count() == a.node_count()
    &&& b.within_impl_block() == a.within_impl_block()
    &&& b.bound_struct() == a.bound_struct()
    &&& ScopeTree::same_but_scope(&a.scope_tree(), &b.scope_tree(), a.current_scope_index())
}

impl NameScopingSemantics {
    /// `let name`: declares a variable in the scope being read, unless the
    /// scope already declares the name.
    pub fn visit_let_statement(&self, name: String, node: AstNodeIndex, context: &mut NameScopingContext) -> (r: Result<(), NameScopingError>)
        requires
            old(context).wf(),
            node.0 < old(context).node_count(),
        ensures
            old(context).scope_tree().spec_scope_contains(old(context).current_scope_index(), name@) ==> {
                &&& r == Err::<(), NameScopingError>(NameScopingError::LetShadowsDeclaration)
                &&& *final(context) == *old(context)
            },
            !old(context).scope_tree().spec_scope_contains(old(context).current_scope_index(), name@) ==> {
                let scope = final(context).scope_tree().scopes@[old(context).current_scope_index()];
                &&& r is Ok
                &&& changed_current_declarations(old(context), final(context))
                &&& scope.variables@[name@]@ == seq![node]
                &&& final(context).scope_tree().spec_find_scope_index(old(context).current_scope_index(), name@)
                    == Some(old(context).current_scope_index())
            },
    {
        let current = context.current_scope;
        if context.local_scopes.scope_contains(current, name.as_str()) {
            return Err(NameScopingError::LetShadowsDeclaration);
        }
        let ghost before = context.local_scopes;
        context.local_scopes.add_variable(current, name, node);
        proof {
            assert(NameScopingContext::keeps_impl_blocks(before, context.local_scopes));
        }
        Ok(())
    }

    /// `static name`: declares a static in the scope being read, unless the
    /// scope already declares the name.
    pub fn visit_static_statement(&self, name: String, node: AstNodeIndex, context: &mut NameScopingContext) -> (r: Result<(), NameScopingError>)
        requires
            old(context).wf(),
            node.0 < old(context).node_count(),
        ensures
            old(context).scope_tree().spec_scope_contains(old(context).current_scope_index(), name@) ==> {
                &&& r == Err::<(), NameScopingError>(NameScopingError::StaticRedefined)
                &&& *final(context) == *old(context)
            },
            !old(context).scope_tree().spec_scope_contains(old(context).current_scope_index(), name@) ==> {
                &&& r is Ok
                &&& changed_current_declarations(old(context), final(context))
                &&& final(context).scope_tree().scopes@[old(context).current_scope_index()].const_declarations@
                    == old(context).scope_tree().scopes@[old(context).current_scope_index()].const_declarations@.insert(name@, node)
            },
    {
        let current = context.current_scope;
        let ghost before = context.local_scopes;
        match context.local_scopes.add_static(current, name, node) {
            Ok(()) => {
                proof {
                    assert(NameScopingContext::keeps_impl_blocks(before, context.local_scopes));
                }
                Ok(())
            },
            Err(_) => Err(NameScopingError::StaticRedefined),
        }
    }

    /// `const name`: declares a const in the scope being read, unless the
    /// scope already declares the name.
    pub fn visit_const_statement(&self, name: String, node: AstNodeIndex, context: &mut NameScopingContext) -> (r: Result<(), NameScopingError>)
        requires
            old(context).wf(),
            node.0 < old(context).node_count(),
        ensures
            old(context).scope_tree().spec_scope_contains(old(context).current_scope_index(), name@) ==> {
                &&& r == Err::<(), NameScopingError>(NameScopingError::ConstRedefined)
                &&& *final(context) == *old(context)
            },
            !old(context).scope_tree().spec_scope_contains(old(context).current_scope_index(), name@) ==> {
                &&& r is Ok
                &&& changed_current_declarations(old(context), final(context))
                &&& final(context).scope_tree().scopes@[old(context).current_scope_index()].const_declarations@
                    == old(context).scope_tree().scopes@[old(context).current_scope_index()].const_declarations@.insert(name@, node)
            },
    {
        let current = context.current_scope;
        let ghost before = context.local_scopes;
        match context.local_scopes.add_const(current, name, node) {
            Ok(()) => {
                proof {
                    assert(NameScopingContext::keeps_impl_blocks(before, context.local_scopes));
                }
                Ok(())
            },
            Err(_) => Err(NameScopingError::ConstRedefined),
        }
    }

    /// `struct name`: declares a struct in the scope being read, unless the
    /// scope already declares the name.
    pub fn visit_struct_statement(&self, name: String, node: AstNodeIndex, context: &mut NameScopingContext) -> (r: Result<(), NameScopingError>)
        requires
            old(context).wf(),
        ensures
            old(context).scope_tree().spec_scope_contains(old(context).current_scope_index(), name@) ==> {
                &&& r == Err::<(), NameScopingError>(NameScopingError::StructRedefined)
                &&& *final(context) == *old(context)
            },
            !old(context).scope_tree().spec_scope_contains(old(context).current_scope_index(), name@) ==> {
                let before = old(context).scope_tree().scopes@[old(context).current_scope_index()];
                let after = final(context).scope_tree().scopes@[old(context).current_scope_index()];
                &&& r is Ok
                &&& changed_current_declarations(old(context), final(context))
                &&& final(context).scope_tree().scope_id_by_node_index == old(context).scope_tree().scope_id_by_node_index
                &&& after.structs@ == before.structs@.insert(name@, node)
                &&& after.variables == before.variables
                &&& after.functions == before.functions
                &&& after.static_declarations == before.static_declarations
                &&& after.const_declarations == before.const_declarations
                &&& after.impl_blocks == before.impl_blocks
            },
    {
        let current = context.current_scope;
        if context.local_scopes.scopes[current].find_in_scope(name.as_str()) {
            return Err(NameScopingError::StructRedefined);
        }
        let ghost before = context.local_scopes;
        let mut scope = context.local_scopes.scopes.remove(current);
        scope.structs.insert(name, node);
        context.local_scopes.scopes.insert(current, scope);
        proof {
            assert(context.local_scopes.scopes@ =~= before.scopes@.update(current as int, context.local_scopes.scopes@[current as int]));
            assert(NameScopingContext::keeps_impl_blocks(before, context.local_scopes));
        }
        Ok(())
    }
}


/// `b` is `a` with a scope opened inside scope `parent` and read, whose only
/// declarations are the parameters.
pub open spec fn opened_function_scope(
    a: &NameScopingContext,
    b: &NameScopingContext,
    parent: int,
    arguments: Seq<(String, AstNodeIndex)>,
) -> bool {
    let opened = b.scope_tree().scopes@.last();
    &&& b.wf()
    &&& b.current_scope_index() == a.scope_tree().scopes@.len()
    &&& b.scope_tree().tree@ == a.scope_tree().tree@.push(parent as usize)
    &&& b.scope_tree().scopes@.len() == a.scope_tree().scopes@.len() + 1
    &&& opened.parent_scope == Some(parent as usize)
    &&& declares_parameters(opened, arguments)
    &&& opened.static_declarations@ == Map::<Seq<char>, AstNodeIndex>::empty()
    &&& opened.const_declarations@ == Map::<Seq<char>, AstNodeIndex>::empty()
    &&& opened.functions@ == Map::<Seq<char>, AstNodeIndex>::empty()
    &&& opened.structs@ == Map::<Seq<char>, AstNodeIndex>::empty()
    &&& opened.impl_blocks@ == Map::<Seq<char>, ImplBlock>::empty()
    &&& b.node_count() == a.node_count()
    &&& b.bound_struct() == a.bound_struct()
}

/// `b`'s scopes are `a`'s but for scope `changed`.
pub open spec fn other_scopes_kept(a: &NameScopingContext, b: &NameScopingContext, changed: int) -> bool {
    forall|k: int| 0 <= k < a.scope_tree().scopes@.len() && k != changed ==> #[trigger] b.scope_tree().scopes@[k] == a.scope_tree().scopes@[k]
}

/// Scope `b` is scope `a` with `name` added to the functions (or, when
/// `as_method`, to the methods) of its `impl` block for `struct_name`.
pub open spec fn impl_member_added(a: Scope, b: Scope, struct_name: Seq<char>, name: Seq<char>, node: AstNodeIndex, as_method: bool) -> bool {
    let before = a.impl_blocks@[struct_name];
    let after = b.impl_blocks@[struct_name];
    &&& b.impl_blocks@.dom() == a.impl_blocks@.dom()
    &&& forall|n: Seq<char>| n != struct_name && #[trigger] a.impl_blocks@.dom().contains(n) ==> b.impl_blocks@[n] == a.impl_blocks@[n]
    &&& after.bound_struct == before.bound_struct
    &&& after.ast_node_index == before.ast_node_index
    &&& after.struct_ast_node_index == before.struct_ast_node_index
    &&& after.static_variables == before.static_variables
    &&& after.const_variables == before.const_variables
    &&& if as_method {
        after.functions == before.functions && after.methods@ == before.methods@.insert(name, node)
    } else {
        after.methods == before.methods && after.functions@ == before.functions@.insert(name, node)
    }
    &&& b.parent_scope == a.parent_scope
    &&& b.static_declarations == a.static_declarations
    &&& b.const_declarations == a.const_declarations
    &&& b.functions == a.functions
    &&& b.structs == a.structs
    &&& b.variables == a.variables
}

/// Whether some `impl` block for `struct_name` declares `name`.
pub open spec fn declared_in_some_impl_block(tree: ScopeTree, name: Seq<char>, struct_name: Seq<char>) -> bool {
    exists|i: int| 0 <= i < tree.scopes@.len() && #[trigger] tree.scopes@[i].impl_block_defines(name, struct_name)
}

impl NameScopingContext {
    /// Adds `name` to the functions or methods of the `impl` block entered
    /// last, in the scope of that block.
    fn add_to_bound_impl_block(&mut self, name: String, node: AstNodeIndex, as_method: bool)
        requires
            old(self).wf(),
            old(self).struct_impl_view@.len() > 0,
        ensures
            final(self).wf(),
            final(self).current_scope == old(self).current_scope,
            final(self).local_scopes.tree == old(self).local_scopes.tree,
            final(self).local_scopes.scope_id_by_node_index == old(self).local_scopes.scope_id_by_node_index,
            final(self).local_scopes.scopes@.len() == old(self).local_scopes.scopes@.len(),
            final(self).struct_impl_view == old(self).struct_impl_view,
            final(self).is_within_impl_block == old(self).is_within_impl_block,
            ({
                let view = old(self).struct_impl_view@.last();
                &&& other_scopes_kept(old(self), final(self), view.impl_block_scope_index as int)
                &&& impl_member_added(
                    old(self).local_scopes.scopes@[view.impl_block_scope_index as int],
                    final(self).local_scopes.scopes@[view.impl_block_scope_index as int],
                    view.struct_name@,
                    name@,
                    node,
                    as_method,
                )
            }),
    {
        let last = self.struct_impl_view.len() - 1;
        let impl_scope = self.struct_impl_view[last].impl_block_scope_index;
        let struct_name = self.struct_impl_view[last].struct_name.clone();
        proof {
            assert(self.struct_impl_view@[last as int] == self.struct_impl_view@.last());
        }
        let ghost before = self.local_scopes;
        let mut scope = self.local_scopes.scopes.remove(impl_scope);
        let ghost scope_before = scope;
        match scope.impl_blocks.get_mut(struct_name.as_str()) {
            Some(block) => {
                if as_method {
                    block.methods.insert(name, node);
                } else {
                    block.functions.insert(name, node);
                }
            },
            None => {},
        }
        self.local_scopes.scopes.insert(impl_scope, scope);
        proof {
            assert(self.local_scopes.scopes@ =~= before.scopes@.update(impl_scope as int, scope));
            assert forall|n: Seq<char>| n != struct_name@ && #[trigger] scope_before.impl_blocks@.dom().contains(n)
                implies scope.impl_blocks@[n] == scope_before.impl_blocks@[n] by {}
            assert(scope.impl_blocks@.dom() =~= scope_before.impl_blocks@.dom());
            assert(scope_before == before.scopes@[impl_scope as int]);
            assert forall|k: int| 0 <= k < before.scopes@.len() implies
                (#[trigger] self.local_scopes.scopes@[k]).impl_blocks@.dom() == before.scopes@[k].impl_blocks@.dom() by {
                if k != impl_scope {
                    assert(self.local_scopes.scopes@[k] == before.scopes@[k]);
                }
            }
            assert(NameScopingContext::keeps_impl_blocks(before, self.local_scopes));
        }
    }
}

impl NameScopingSemantics {
    /// Entering `impl struct_name`: finds the struct from the scope opened
    /// last outward, records a block for it in the scope being read unless
    /// one is there, and marks the pass as inside an `impl` block. Gives
    /// back whether the pass was inside one before.
    pub fn enter_impl_statement(&self, struct_name: String, impl_node: AstNodeIndex, context: &mut NameScopingContext) -> (r: Result<bool, NameScopingError>)
        requires
            old(context).wf(),
        ensures
            ({
                let tree = old(context).scope_tree();
                let found = tree.spec_find_scope_index(tree.tree@.len() - 1, struct_name@);
                let current = old(context).current_scope_index();
                match found {
                    None => r == Err::<bool, NameScopingError>(NameScopingError::NameNotFound) && *final(context) == *old(context),
                    Some(i) => if !tree.scopes@[i].structs@.dom().contains(struct_name@) {
                        r == Err::<bool, NameScopingError>(NameScopingError::StructNotFound) && *final(context) == *old(context)
                    } else {
                        let before = tree.scopes@[current];
                        let after = final(context).scope_tree().scopes@[current];
                        &&& r == Ok::<bool, NameScopingError>(old(context).within_impl_block())
                        &&& final(context).wf()
                        &&& final(context).within_impl_block()
                        &&& final(context).bound_struct() == Some((struct_name@, i, current))
                        &&& final(context).current_scope_index() == current
                        &&& final(context).node_count() == old(context).node_count()
                        &&& ScopeTree::same_but_scope(&tree, &final(context).scope_tree(), current)
                        &&& final(context).scope_tree().scope_id_by_node_index == tree.scope_id_by_node_index
                        &&& after.impl_blocks@.dom() == before.impl_blocks@.dom().insert(struct_name@)
                        &&& forall|n: Seq<char>| #[trigger] before.impl_blocks@.dom().contains(n) ==> after.impl_blocks@[n] == before.impl_blocks@[n]
                        &&& !before.impl_blocks@.dom().contains(struct_name@) ==> {
                            let block = after.impl_blocks@[struct_name@];
                            &&& block.bound_struct@ == struct_name@
                            &&& block.ast_node_index == impl_node
                            &&& block.struct_ast_node_index == tree.scopes@[i].structs@[struct_name@]
                            &&& block.static_variables@ == Map::<Seq<char>, AstNodeIndex>::empty()
                            &&& block.const_variables@ == Map::<Seq<char>, AstNodeIndex>::empty()
                            &&& block.functions@ == Map::<Seq<char>, AstNodeIndex>::empty()
                            &&& block.methods@ == Map::<Seq<char>, AstNodeIndex>::empty()
                        }
                        &&& after.parent_scope == before.parent_scope
                        &&& after.variables == before.variables
                        &&& after.functions == before.functions
                        &&& after.structs == before.structs
                        &&& after.static_declarations == before.static_declarations
                        &&& after.const_declarations == before.const_declarations
                    },
                }
            }),
    {
        let last = context.local_scopes.tree.len() - 1;
        proof {
            context.local_scopes.lemma_find_scope_index_sound(last as int, struct_name@);
        }
        let (struct_scope, struct_node) = match context.local_scopes.find_from_scope(last, struct_name.as_str()) {
            None => {
                return Err(NameScopingError::NameNotFound);
            },
            Some((i, scope)) => match scope.structs.get(struct_name.as_str()) {
                None => {
                    return Err(NameScopingError::StructNotFound);
                },
                Some(node) => (i, *node),
            },
        };
        let current = context.current_scope;
        let ghost before = context.local_scopes;
        if !context.local_scopes.scopes[current].impl_blocks.contains_key(struct_name.as_str()) {
            let mut scope = context.local_scopes.scopes.remove(current);
            scope.impl_blocks.insert(struct_name.clone(), ImplBlock::new(struct_name.clone(), impl_node, struct_node));
            context.local_scopes.scopes.insert(current, scope);
            proof {
                assert(context.local_scopes.scopes@ =~= before.scopes@.update(current as int, scope));
            }
        }
        proof {
            assert(context.local_scopes.scopes@[current as int].impl_blocks@.dom().contains(struct_name@));
            assert forall|k: int| 0 <= k < before.scopes@.len() implies
                (#[trigger] context.local_scopes.scopes@[k]).impl_blocks@.dom().contains(struct_name@)
                    || context.local_scopes.scopes@[k].impl_blocks@.dom() == before.scopes@[k].impl_blocks@.dom() by {
            }
        }
        let ghost views_before = context.struct_impl_view@;
        context.struct_impl_view.push(StructImplView::new(struct_name, struct_node, struct_scope, impl_node, current));
        let previous = context.is_within_impl_block;
        context.is_within_impl_block = true;
        proof {
            assert forall|i: int| 0 <= i < context.struct_impl_view@.len() implies {
                let view = #[trigger] context.struct_impl_view@[i];
                &&& view.struct_scope_index < context.local_scopes.scopes@.len()
                &&& view.impl_block_scope_index < context.local_scopes.scopes@.len()
                &&& context.local_scopes.scopes@[view.impl_block_scope_index as int].impl_blocks@.dom().contains(view.struct_name@)
            } by {
                if i < views_before.len() {
                    assert(context.struct_impl_view@[i] == views_before[i]);
                    assert(old(context).struct_impl_view@[i] == views_before[i]);
                    let k = views_before[i].impl_block_scope_index as int;
                    assert(before.scopes@[k].impl_blocks@.dom().contains(views_before[i].struct_name@));
                    if k == current {
                        assert(context.local_scopes.scopes@[k].impl_blocks@.dom().contains(views_before[i].struct_name@));
                    } else {
                        assert(context.local_scopes.scopes@[k] == before.scopes@[k]);
                    }
                }
            }
        }
        Ok(previous)
    }

    /// Leaving an `impl` block: whether the pass is inside one becomes
    /// `previous` again.
    pub fn leave_impl_statement(&self, previous: bool, context: &mut NameScopingContext)
        requires
            old(context).wf(),
            previous ==> old(context).bound_struct() is Some,
        ensures
            final(context).wf(),
            final(context).within_impl_block() == previous,
            final(context).scope_tree() == old(context).scope_tree(),
            final(context).current_scope_index() == old(context).current_scope_index(),
            final(context).node_count() == old(context).node_count(),
            final(context).bound_struct() == old(context).bound_struct(),
    {
        context.is_within_impl_block = previous;
    }

    /// Entering `fn name(arguments)`: inside an `impl` block the function
    /// joins the block entered last, unless that struct is missing or one of
    /// its blocks already declares the name; elsewhere it joins the scope
    /// being read, unless the scope declares the name. Then a scope is opened
    /// for the parameters, unless two have the same name. Gives back the
    /// scope to return to.
    pub fn try_enter_function_statement(
        &self,
        fn_node: AstNodeIndex,
        name: String,
        arguments: &Vec<(String, AstNodeIndex)>,
        context: &mut NameScopingContext,
    ) -> (r: Result<usize, NameScopingError>)
        requires
            old(context).wf(),
            fn_node.0 < old(context).node_count(),
            nodes_below(arguments@, old(context).node_count()),
        ensures
            r matches Ok(outer) ==> outer < final(context).scope_tree().scopes@.len(),
            ({
                let tree = old(context).scope_tree();
                let current = old(context).current_scope_index();
                if !old(context).within_impl_block() {
                    if tree.spec_scope_contains(current, name@) {
                        r == Err::<usize, NameScopingError>(NameScopingError::DuplicatedFunction) && *final(context) == *old(context)
                    } else if has_duplicate_names(arguments@) {
                        r == Err::<usize, NameScopingError>(NameScopingError::DuplicatedParameter) && *final(context) == *old(context)
                    } else {
                        let before = tree.scopes@[current];
                        let after = final(context).scope_tree().scopes@[current];
                        &&& r == Ok::<usize, NameScopingError>(current as usize)
                        &&& opened_function_scope(old(context), final(context), current, arguments@)
                        &&& other_scopes_kept(old(context), final(context), current)
                        &&& after.functions@ == before.functions@.insert(name@, fn_node)
                        &&& after.parent_scope == before.parent_scope
                        &&& after.variables == before.variables
                        &&& after.structs == before.structs
                        &&& after.static_declarations == before.static_declarations
                        &&& after.const_declarations == before.const_declarations
                        &&& after.impl_blocks == before.impl_blocks
                        &&& !final(context).within_impl_block()
                    }
                } else {
                    let (struct_name, struct_scope, impl_scope) = old(context).bound_struct()->0;
                    if !tree.scopes@[struct_scope].structs@.dom().contains(struct_name) {
                        r == Err::<usize, NameScopingError>(NameScopingError::StructNotFoundForFunction) && *final(context) == *old(context)
                    } else if declared_in_some_impl_block(tree, name@, struct_name) {
                        r == Err::<usize, NameScopingError>(NameScopingError::DuplicatedImplFunction) && *final(context) == *old(context)
                    } else if has_duplicate_names(arguments@) {
                        r == Err::<usize, NameScopingError>(NameScopingError::DuplicatedParameter) && *final(context) == *old(context)
                    } else {
                        &&& r == Ok::<usize, NameScopingError>(current as usize)
                        &&& opened_function_scope(old(context), final(context), impl_scope, arguments@)
                        &&& other_scopes_kept(old(context), final(context), impl_scope)
                        &&& impl_member_added(tree.scopes@[impl_scope], final(context).scope_tree().scopes@[impl_scope],
                            struct_name, name@, fn_node, false)
                        &&& final(context).within_impl_block()
                    }
                }
            }),
    {
        let current = context.current_scope;
        if !context.is_within_impl_block {
            if context.local_scopes.scope_contains(current, name.as_str()) {
                return Err(NameScopingError::DuplicatedFunction);
            }
            if has_duplicate_parameter(arguments) {
                return Err(NameScopingError::DuplicatedParameter);
            }
            let ghost before = context.local_scopes;
            let added = context.local_scopes.add_function(current, name, fn_node);
            proof {
                assert(NameScopingContext::keeps_impl_blocks(before, context.local_scopes));
            }
            let ghost declared = *context;
            let previous = context.enter_new_naming_scope();
            context.add_parameters(arguments);
            proof {
                assert forall|k: int| 0 <= k < old(context).local_scopes.scopes@.len() && k != current
                    implies #[trigger] context.local_scopes.scopes@[k] == old(context).local_scopes.scopes@[k] by {
                    assert(declared.local_scopes.scopes@[k] == old(context).local_scopes.scopes@[k]);
                }
            }
            Ok(previous)
        } else {
            let last = context.struct_impl_view.len() - 1;
            proof {
                assert(context.struct_impl_view@[last as int] == context.struct_impl_view@.last());
            }
            let struct_scope = context.struct_impl_view[last].struct_scope_index;
            let impl_scope = context.struct_impl_view[last].impl_block_scope_index;
            if !context.local_scopes.scopes[struct_scope].structs.contains_key(context.struct_impl_view[last].struct_name.as_str()) {
                return Err(NameScopingError::StructNotFoundForFunction);
            }
            if context.local_scopes.find_in_all_impl_blocks(name.as_str(), context.struct_impl_view[last].struct_name.as_str()) {
                return Err(NameScopingError::DuplicatedImplFunction);
            }
            if has_duplicate_parameter(arguments) {
                return Err(NameScopingError::DuplicatedParameter);
            }
            context.add_to_bound_impl_block(name, fn_node, false);
            let ghost declared = *context;
            context.current_scope = impl_scope;
            context.enter_new_naming_scope();
            context.add_parameters(arguments);
            proof {
                assert forall|k: int| 0 <= k < old(context).local_scopes.scopes@.len() && k != impl_scope
                    implies #[trigger] context.local_scopes.scopes@[k] == old(context).local_scopes.scopes@[k] by {
                    assert(declared.scope_tree().scopes@[k] == old(context).scope_tree().scopes@[k]);
                }
            }
            Ok(current)
        }
    }

    /// Leaving a function: the pass reads scope `outer` again.
    pub fn leave_function_statement(&self, outer: usize, context: &mut NameScopingContext)
        requires
            old(context).wf(),
            outer < old(context).scope_tree().scopes@.len(),
        ensures
            final(context).wf(),
            final(context).current_scope_index() == outer,
            final(context).scope_tree() == old(context).scope_tree(),
            final(context).node_count() == old(context).node_count(),
            final(context).within_impl_block() == old(context).within_impl_block(),
            final(context).bound_struct() == old(context).bound_struct(),
    {
        context.leave_naming_scope(outer);
    }

    /// Entering a method `name(arguments)` of the `impl` block entered last:
    /// it joins that block's methods, unless the struct is missing or one of
    /// its blocks already declares the name; a scope inside the block's scope
    /// is opened for the parameters, unless two have the same name, and the
    /// pass is marked as inside an `impl` block. Gives back the scope to
    /// return to and whether the pass was inside an `impl` block.
    pub fn try_enter_method_statement(
        &self,
        fn_node: AstNodeIndex,
        name: String,
        arguments: &Vec<(String, AstNodeIndex)>,
        context: &mut NameScopingContext,
    ) -> (r: Result<(usize, bool), NameScopingError>)
        requires
            old(context).wf(),
            old(context).bound_struct() is Some,
            nodes_below(arguments@, old(context).node_count()),
        ensures
            r matches Ok(entered) ==> entered.0 < final(context).scope_tree().scopes@.len(),
            ({
                let tree = old(context).scope_tree();
                let current = old(context).current_scope_index();
                let (struct_name, struct_scope, impl_scope) = old(context).bound_struct()->0;
                if !tree.scopes@[struct_scope].structs@.dom().contains(struct_name) {
                    r == Err::<(usize, bool), NameScopingError>(NameScopingError::StructNotFoundForFunction) && *final(context) == *old(context)
                } else if declared_in_some_impl_block(tree, name@, struct_name) {
                    r == Err::<(usize, bool), NameScopingError>(NameScopingError::DuplicatedImplMethod) && *final(context) == *old(context)
                } else if has_duplicate_names(arguments@) {
                    r == Err::<(usize, bool), NameScopingError>(NameScopingError::DuplicatedParameter) && *final(context) == *old(context)
                } else {
                    &&& r == Ok::<(usize, bool), NameScopingError>((current as usize, old(context).within_impl_block()))
                    &&& opened_function_scope(old(context), final(context), impl_scope, arguments@)
                    &&& other_scopes_kept(old(context), final(context), impl_scope)
                    &&& impl_member_added(tree.scopes@[impl_scope], final(context).scope_tree().scopes@[impl_scope],
                        struct_name, name@, fn_node, true)
                    &&& final(context).within_impl_block()
                }
            }),
    {
        let current = context.current_scope;
        let last = context.struct_impl_view.len() - 1;
        proof {
            assert(context.struct_impl_view@[last as int] == context.struct_impl_view@.last());
        }
        let struct_scope = context.struct_impl_view[last].struct_scope_index;
        let impl_scope = context.struct_impl_view[last].impl_block_scope_index;
        if !context.local_scopes.scopes[struct_scope].structs.contains_key(context.struct_impl_view[last].struct_name.as_str()) {
            return Err(NameScopingError::StructNotFoundForFunction);
        }
        if context.local_scopes.find_in_all_impl_blocks(name.as_str(), context.struct_impl_view[last].struct_name.as_str()) {
            return Err(NameScopingError::DuplicatedImplMethod);
        }
        if has_duplicate_parameter(arguments) {
            return Err(NameScopingError::DuplicatedParameter);
        }
        context.add_to_bound_impl_block(name, fn_node, true);
        let ghost declared = *context;
        context.current_scope = impl_scope;
        context.enter_new_naming_scope();
        let previous_flag = context.is_within_impl_block;
        context.is_within_impl_block = true;
        context.add_parameters(arguments);
        proof {
            assert forall|k: int| 0 <= k < old(context).local_scopes.scopes@.len() && k != impl_scope
                implies #[trigger] context.local_scopes.scopes@[k] == old(context).local_scopes.scopes@[k] by {
                assert(declared.scope_tree().scopes@[k] == old(context).scope_tree().scopes@[k]);
            }
        }
        Ok((current, previous_flag))
    }

    /// Leaving a method: whether the pass is inside an `impl` block becomes
    /// `previous_flag` again, and it reads scope `outer` again.
    pub fn leave_method_statement(&self, outer: usize, previous_flag: bool, context: &mut NameScopingContext)
        requires
            old(context).wf(),
            outer < old(context).scope_tree().scopes@.len(),
            previous_flag ==> old(context).bound_struct() is Some,
        ensures
            final(context).wf(),
            final(context).current_scope_index() == outer,
            final(context).within_impl_block() == previous_flag,
            final(context).scope_tree() == old(context).scope_tree(),
            final(context).node_count() == old(context).node_count(),
            final(context).bound_struct() == old(context).bound_struct(),
    {
        context.is_within_impl_block = previous_flag;
        context.current_scope = outer;
    }
}

/// Whether a function called `name` with these parameters may be entered:
/// elsewhere than in an `impl` block the scope being read must not declare
/// the name; in one, the struct of the block entered last must be declared
/// and none of its blocks may declare the name. No two parameters may share
/// a name.
pub open spec fn function_entry_allowed(context: NameScopingContext, name: Seq<char>, arguments: Seq<(String, AstNodeIndex)>) -> bool {
    let tree = context.scope_tree();
    &&& !has_duplicate_names(arguments)
    &&& if !context.within_impl_block() {
        !tree.spec_scope_contains(context.current_scope_index(), name)
    } else {
        let (struct_name, struct_scope, impl_scope) = context.bound_struct()->0;
        &&& tree.scopes@[struct_scope].structs@.dom().contains(struct_name)
        &&& !declared_in_some_impl_block(tree, name, struct_name)
    }
}

/// Whether a method called `name` with these parameters may be entered in
/// the `impl` block entered last: its struct must be declared, none of its
/// blocks may declare the name, and no two parameters may share a name.
pub open spec fn method_entry_allowed(context: NameScopingContext, name: Seq<char>, arguments: Seq<(String, AstNodeIndex)>) -> bool {
    let tree = context.scope_tree();
    let (struct_name, struct_scope, impl_scope) = context.bound_struct()->0;
    &&& tree.scopes@[struct_scope].structs@.dom().contains(struct_name)
    &&& !declared_in_some_impl_block(tree, name, struct_name)
    &&& !has_duplicate_names(arguments)
}

impl NameScopingSemantics {
    /// Entering `fn name(arguments)`, where that is allowed: the function is
    /// declared (in the `impl` block entered last, inside one; in the scope
    /// being read, elsewhere) and a scope is opened for the parameters.
    /// Gives back the scope to return to.
    pub fn enter_function_statement(
        &self,
        fn_node: AstNodeIndex,
        name: String,
        arguments: &Vec<(String, AstNodeIndex)>,
        context: &mut NameScopingContext,
    ) -> (r: usize)
        requires
            old(context).wf(),
            fn_node.0 < old(context).node_count(),
            nodes_below(arguments@, old(context).node_count()),
            function_entry_allowed(*old(context), name@, arguments@),
        ensures
            r < final(context).scope_tree().scopes@.len(),
            ({
                let tree = old(context).scope_tree();
                let current = old(context).current_scope_index();
                if !old(context).within_impl_block() {
                    let before = tree.scopes@[current];
                    let after = final(context).scope_tree().scopes@[current];
                    &&& r == current
                    &&& opened_function_scope(old(context), final(context), current, arguments@)
                    &&& other_scopes_kept(old(context), final(context), current)
                    &&& after.functions@ == before.functions@.insert(name@, fn_node)
                    &&& after.parent_scope == before.parent_scope
                    &&& after.variables == before.variables
                    &&& after.structs == before.structs
                    &&& after.static_declarations == before.static_declarations
                    &&& after.const_declarations == before.const_declarations
                    &&& after.impl_blocks == before.impl_blocks
                    &&& !final(context).within_impl_block()
                } else {
                    let (struct_name, struct_scope, impl_scope) = old(context).bound_struct()->0;
                    &&& r == current
                    &&& opened_function_scope(old(context), final(context), impl_scope, arguments@)
                    &&& other_scopes_kept(old(context), final(context), impl_scope)
                    &&& impl_member_added(tree.scopes@[impl_scope], final(context).scope_tree().scopes@[impl_scope],
                        struct_name, name@, fn_node, false)
                    &&& final(context).within_impl_block()
                }
            }),
    {
        match self.try_enter_function_statement(fn_node, name, arguments, context) {
            Ok(outer) => outer,
            Err(_) => {
                proof {
                    assert(false);
                }
                0
            },
        }
    }

    /// Entering a method `name(arguments)` of the `impl` block entered last,
    /// where that is allowed: it joins the block's methods, a scope inside
    /// the block's scope is opened for the parameters, and the pass is marked
    /// as inside an `impl` block. Gives back the scope to return to and
    /// whether the pass was inside an `impl` block.
    pub fn enter_method_statement(
        &self,
        fn_node: AstNodeIndex,
        name: String,
        arguments: &Vec<(String, AstNodeIndex)>,
        context: &mut NameScopingContext,
    ) -> (r: (usize, bool))
        requires
            old(context).wf(),
            old(context).bound_struct() is Some,
            nodes_below(arguments@, old(context).node_count()),
            method_entry_allowed(*old(context), name@, arguments@),
        ensures
            r.0 < final(context).scope_tree().scopes@.len(),
            ({
                let tree = old(context).scope_tree();
                let current = old(context).current_scope_index();
                let (struct_name, struct_scope, impl_scope) = old(context).bound_struct()->0;
                &&& r == (current as usize, old(context).within_impl_block())
                &&& opened_function_scope(old(context), final(context), impl_scope, arguments@)
                &&& other_scopes_kept(old(context), final(context), impl_scope)
                &&& impl_member_added(tree.scopes@[impl_scope], final(context).scope_tree().scopes@[impl_scope],
                    struct_name, name@, fn_node, true)
                &&& final(context).within_impl_block()
            }),
    {
        match self.try_enter_method_statement(fn_node, name, arguments, context) {
            Ok(entered) => entered,
            Err(_) => {
                proof {
                    assert(false);
                }
                (0, false)
            },
        }
    }
}

/// In a well-formed context the scope being read exists.
pub proof fn lemma_current_scope_exists(context: NameScopingContext)
    requires
        context.wf(),
    ensures
        0 <= context.current_scope_index() < context.scope_tree().scopes@.len(),
{
}

} // verus!
