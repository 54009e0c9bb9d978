use vstd::prelude::*;

use crate::syntax::ast::{AstNodeIndex, Type};
use crate::parser::semantics::traits::AstContext;
use crate::utils::name_map::{str_eq, NameMap};

verus! {

/// A function declared in an `impl` block.
pub struct FunctionDeclaration {}

/// A method declared in an `impl` block.
pub struct MethodDeclaration {}

/// The names an `impl` block declares for a struct.
pub struct ImplBlock {
    pub bound_struct: String,
    pub ast_node_index: AstNodeIndex,
    pub struct_ast_node_index: AstNodeIndex,
    pub static_variables: NameMap<AstNodeIndex>,
    pub const_variables: NameMap<AstNodeIndex>,
    pub functions: NameMap<FunctionDeclaration>,
    pub methods: NameMap<MethodDeclaration>,
}

impl ImplBlock {
    /// Whether the block declares a function or a method called `name`.
    pub open spec fn spec_contains_function(&self, name: Seq<char>) -> bool {
        self.functions@.dom().contains(name) || self.methods@.dom().contains(name)
    }

    /// Whether the block declares anything called `name`.
    pub open spec fn spec_contains_name(&self, name: Seq<char>) -> bool {
        self.static_variables@.dom().contains(name) || self.const_variables@.dom().contains(name)
            || self.spec_contains_function(name)
    }

    /// A block for `bound_struct` that declares nothing yet.
    pub fn new(
        bound_struct: String,
        ast_node_index: AstNodeIndex,
        struct_ast_node_index: AstNodeIndex,
    ) -> (r: Self)
        ensures
            r.bound_struct == bound_struct,
            r.ast_node_index == ast_node_index,
            r.struct_ast_node_index == struct_ast_node_index,
            r.static_variables@ == Map::<Seq<char>, AstNodeIndex>::empty(),
            r.const_variables@ == Map::<Seq<char>, AstNodeIndex>::empty(),
            r.functions@ == Map::<Seq<char>, FunctionDeclaration>::empty(),
            r.methods@ == Map::<Seq<char>, MethodDeclaration>::empty(),
    {
        Self {
            bound_struct,
            ast_node_index,
            struct_ast_node_index,
            static_variables: NameMap::new(),
            const_variables: NameMap::new(),
            functions: NameMap::new(),
            methods: NameMap::new(),
        }
    }

    pub fn contains_function(&self, name: &str) -> (r: bool)
        ensures
            r == self.spec_contains_function(name@),
    {
        self.functions.contains_key(name) || self.methods.contains_key(name)
    }

    pub fn contains_name(&self, name: &str) -> (r: bool)
        ensures
            r == self.spec_contains_name(name@),
    {
        self.static_variables.contains_key(name) || self.const_variables.contains_key(name)
            || self.contains_function(name)
    }
}

/// A struct declared in a scope.
pub struct StructDeclaration {
    name: String,
    ast_node_index: AstNodeIndex,
    fields: NameMap<Type>,
}

impl StructDeclaration {
    /// The struct's name.
    pub closed spec fn declared_name(&self) -> Seq<char> {
        self.name@
    }

    /// The node that declares the struct.
    pub closed spec fn declaration_node(&self) -> AstNodeIndex {
        self.ast_node_index
    }

    /// The struct's fields recorded so far.
    pub closed spec fn declared_fields(&self) -> Map<Seq<char>, Type> {
        self.fields@
    }

    /// A declaration of struct `name` with no fields recorded yet.
    pub fn new(name: String, ast_node_index: AstNodeIndex) -> (r: Self)
        ensures
            r.declared_name() == name@,
            r.declaration_node() == ast_node_index,
            r.declared_fields() == Map::<Seq<char>, Type>::empty(),
    {
        Self { name, ast_node_index, fields: NameMap::new() }
    }
}

/// The names declared in one scope.
pub struct Scope {
    pub parent_scope: Option<usize>,
    pub static_declarations: NameMap<AstNodeIndex>,
    pub const_declarations: NameMap<AstNodeIndex>,
    pub functions: NameMap<AstNodeIndex>,
    pub structs: NameMap<StructDeclaration>,
    pub variables: NameMap<Vec<AstNodeIndex>>,
    pub impl_blocks: NameMap<ImplBlock>,
}

impl Default for Scope {
    fn default() -> (r: Self)
        ensures
            r.parent_scope is None,
            r.is_empty_scope(),
    {
        Scope {
            parent_scope: None,
            static_declarations: NameMap::new(),
            const_declarations: NameMap::new(),
            functions: NameMap::new(),
            structs: NameMap::new(),
            variables: NameMap::new(),
            impl_blocks: NameMap::new(),
        }
    }
}

impl Scope {
    /// Whether the scope declares nothing.
    pub open spec fn is_empty_scope(&self) -> bool {
        &&& self.static_declarations@ == Map::<Seq<char>, AstNodeIndex>::empty()
        &&& self.const_declarations@ == Map::<Seq<char>, AstNodeIndex>::empty()
        &&& self.functions@ == Map::<Seq<char>, AstNodeIndex>::empty()
        &&& self.structs@ == Map::<Seq<char>, StructDeclaration>::empty()
        &&& self.variables@ == Map::<Seq<char>, Vec<AstNodeIndex>>::empty()
        &&& self.impl_blocks@ == Map::<Seq<char>, ImplBlock>::empty()
    }

    /// Whether the scope declares a variable, function, struct, static or const called `name`.
    pub open spec fn defines(&self, name: Seq<char>) -> bool {
        self.variables@.dom().contains(name) || self.functions@.dom().contains(name)
            || self.structs@.dom().contains(name) || self.static_declarations@.dom().contains(name)
            || self.const_declarations@.dom().contains(name)
    }

    /// Whether the scope has an `impl` block for `struct_name` that declares `name`.
    pub open spec fn impl_block_defines(&self, name: Seq<char>, struct_name: Seq<char>) -> bool {
        self.impl_blocks@.dom().contains(struct_name)
            && self.impl_blocks@[struct_name].spec_contains_name(name)
    }

    pub fn find_in_scope(&self, name: &str) -> (r: bool)
        ensures
            r == self.defines(name@),
    {
        self.variables.contains_key(name) || self.functions.contains_key(name)
            || self.structs.contains_key(name) || self.static_declarations.contains_key(name)
            || self.const_declarations.contains_key(name)
    }

    /// The `impl` block for `struct_name`, if it declares `name`.
    pub fn find_in_impl_block(&self, name: &str, struct_name: &str) -> (r: Option<&ImplBlock>)
        ensures
            r == (if self.impl_block_defines(name@, struct_name@) {
                Some(&self.impl_blocks@[struct_name@])
            } else {
                None
            }),
    {
        let impl_block = match self.impl_blocks.get(struct_name) {
            Some(b) => b,
            None => return None,
        };
        if impl_block.contains_name(name) {
            Some(impl_block)
        } else {
            None
        }
    }

    /// The `impl` block for `struct_name` to change in place, if it declares `name`.
    pub fn find_in_impl_block_mut(&mut self, name: &str, struct_name: &str) -> (r: Option<&mut ImplBlock>)
        ensures
            r is Some <==> old(self).impl_block_defines(name@, struct_name@),
            r is None ==> *final(self) == *old(self),
            r matches Some(b) ==> {
                &&& *b == old(self).impl_blocks@[struct_name@]
                &&& final(self).impl_blocks@ == old(self).impl_blocks@.insert(struct_name@, *final(b))
                &&& final(self).parent_scope == old(self).parent_scope
                &&& final(self).static_declarations == old(self).static_declarations
                &&& final(self).const_declarations == old(self).const_declarations
                &&& final(self).functions == old(self).functions
                &&& final(self).structs == old(self).structs
                &&& final(self).variables == old(self).variables
            },
    {
        let found = match self.impl_blocks.get(struct_name) {
            Some(b) => b.contains_name(name),
            None => false,
        };
        if !found {
            return None;
        }
        self.impl_blocks.get_mut(struct_name)
    }
}

/// The scopes of a program and how they nest: scope `i` lies in scope
/// `tree[i]`; scope 0 holds the top level.
pub struct ScopeTree {
    tree: Vec<usize>,
    scopes: Vec<Scope>,
}

impl ScopeTree {
    /// For each scope, the scope that holds it.
    pub closed spec fn parents(&self) -> Seq<usize> {
        self.tree@
    }

    /// The scopes, by number.
    pub closed spec fn all_scopes(&self) -> Seq<Scope> {
        self.scopes@
    }

    /// Every scope but the top level lies in a scope made before it.
    pub open spec fn wf(&self) -> bool {
        &&& self.all_scopes().len() >= 1
        &&& self.parents().len() == self.all_scopes().len()
        &&& self.parents()[0] == 0
        &&& forall|i: int| 0 < i < self.parents().len() ==> #[trigger] self.parents()[i] < i
    }

    /// Whether scope `scope_index` exists and declares `name`.
    pub open spec fn spec_scope_contains(&self, scope_index: int, name: Seq<char>) -> bool {
        0 <= scope_index < self.all_scopes().len() && self.all_scopes()[scope_index].defines(name)
    }

    /// Whether `ancestor` is `scope` or holds it, directly or not.
    pub open spec fn is_ancestor(&self, ancestor: int, scope: int) -> bool
        decreases scope,
    {
        if ancestor == scope {
            true
        } else if 0 < scope < self.parents().len() && self.parents()[scope] < scope {
            self.is_ancestor(ancestor, self.parents()[scope] as int)
        } else {
            false
        }
    }

    /// The nearest scope from `start` outward that declares `name`.
    pub open spec fn spec_find_scope_index(&self, start: int, name: Seq<char>) -> Option<int>
        decreases start,
    {
        if self.spec_scope_contains(start, name) {
            Some(start)
        } else if 0 < start < self.parents().len() && self.parents()[start] < start {
            self.spec_find_scope_index(self.parents()[start] as int, name)
        } else {
            None
        }
    }

    /// A tree with only the top-level scope.
    pub fn new() -> (r: Self)
        ensures
            r.wf(),
            r.parents() == seq![0usize],
            r.all_scopes().len() == 1,
            r.all_scopes()[0].parent_scope is None,
            r.all_scopes()[0].is_empty_scope(),
    {
        let mut scopes = Vec::new();
        scopes.push(Scope::default());
        let mut tree = Vec::new();
        tree.push(0);
        Self { tree, scopes }
    }

    /// Whether some scope has an `impl` block for `struct_name` that declares `name`.
    fn find_in_all_impl_blocks(&self, name: &str, struct_name: &str) -> (r: bool)
        ensures
            r == exists|i: int| 0 <= i < self.all_scopes().len() && #[trigger] self.all_scopes()[i].impl_block_defines(name@, struct_name@),
    {
        let mut i: usize = 0;
        while i < self.scopes.len()
            invariant
                i <= self.scopes@.len(),
                forall|j: int| 0 <= j < i ==> !#[trigger] self.scopes@[j].impl_block_defines(name@, struct_name@),
            decreases self.scopes@.len() - i,
        {
            let scope = &self.scopes[i];
            if !scope.impl_blocks.is_empty() && scope.find_in_impl_block(name, struct_name).is_some() {
                assert(self.all_scopes()[i as int].impl_block_defines(name@, struct_name@));
                return true;
            }
            proof {
                if scope.impl_block_defines(name@, struct_name@) {
                    assert(scope.impl_blocks@.dom().contains(struct_name@));
                }
            }
            i = i + 1;
        }
        false
    }

    /// Opens an empty scope inside `parent` (inside the top level when
    /// `None`); returns its number and the scope.
    pub fn stack_scope(&mut self, parent: Option<usize>) -> (r: (usize, &mut Scope))
        requires
            old(self).wf(),
            parent matches Some(p) ==> p < old(self).all_scopes().len(),
        ensures
            final(self).wf(),
            r.0 == old(self).all_scopes().len(),
            r.1.parent_scope is None,
            r.1.is_empty_scope(),
            final(self).all_scopes() == old(self).all_scopes().push(*final(r.1)),
            final(self).parents() == old(self).parents().push(match parent { Some(p) => p, None => 0 }),
            forall|i: int, name: Seq<char>| 0 <= i < old(self).all_scopes().len() ==>
                #[trigger] final(self).spec_find_scope_index(i, name) == old(self).spec_find_scope_index(i, name),
    {
        let parent_scope = match parent {
            Some(p) => p,
            None => 0,
        };
        self.scopes.push(Scope::default());
        self.tree.push(parent_scope);
        let idx = self.scopes.len() - 1;
        proof {
            ScopeTree::lemma_find_in_any_extension(*old(self));
        }
        (idx, &mut self.scopes[idx])
    }

    /// Whether scope `scope_index` exists and declares `name`.
    pub fn scope_contains(&self, scope_index: usize, name: &str) -> (r: bool)
        ensures
            r == self.spec_scope_contains(scope_index as int, name@),
    {
        if scope_index >= self.scopes.len() {
            return false;
        }
        self.scopes[scope_index].find_in_scope(name)
    }

    /// The nearest scope from `start_scope` outward that declares `name`.
    pub fn find_scope_index(&self, start_scope: usize, name: &str) -> (r: Option<usize>)
        requires
            self.wf(),
            start_scope < self.all_scopes().len(),
        ensures
            r == (match self.spec_find_scope_index(start_scope as int, name@) {
                Some(i) => Some(i as usize),
                None => None::<usize>,
            }),
        decreases start_scope,
    {
        if self.scope_contains(start_scope, name) {
            return Some(start_scope);
        }
        if start_scope == 0 {
            return None;
        }
        let parent_scope = self.tree[start_scope];
        self.find_scope_index(parent_scope, name)
    }

    /// Scope `scope_index` to change in place, if it declares `name`.
    pub fn find_in_scope(&mut self, scope_index: usize, name: &str) -> (r: Option<&mut Scope>)
        ensures
            r is Some <==> old(self).spec_scope_contains(scope_index as int, name@),
            r is None ==> *final(self) == *old(self),
            r matches Some(s) ==> {
                &&& *s == old(self).all_scopes()[scope_index as int]
                &&& final(self).all_scopes() == old(self).all_scopes().update(scope_index as int, *final(s))
                &&& final(self).parents() == old(self).parents()
            },
    {
        if !self.scope_contains(scope_index, name) {
            return None;
        }
        Some(&mut self.scopes[scope_index])
    }

    /// The most recently opened scope to change in place, if it declares `name`.
    pub fn find_in_current_scope(&mut self, name: &str) -> (r: Option<&mut Scope>)
        requires
            old(self).parents().len() >= 1,
        ensures
            r is Some <==> old(self).spec_scope_contains(old(self).parents().len() - 1, name@),
            r is None ==> *final(self) == *old(self),
            r matches Some(s) ==> {
                &&& *s == old(self).all_scopes()[old(self).parents().len() - 1]
                &&& final(self).all_scopes() == old(self).all_scopes().update(old(self).parents().len() - 1, *final(s))
                &&& final(self).parents() == old(self).parents()
            },
    {
        let current = self.tree.len() - 1;
        self.find_in_scope(current, name)
    }

    /// The nearest scope from `scope_index` outward that declares `name`,
    /// with its number, to change in place.
    pub fn find_from_scope(&mut self, scope_index: usize, name: &str) -> (r: Option<(usize, &mut Scope)>)
        requires
            old(self).wf(),
        ensures
            r is Some <==> (scope_index < old(self).all_scopes().len()
                && old(self).spec_find_scope_index(scope_index as int, name@) is Some),
            r is None ==> *final(self) == *old(self),
            r matches Some((i, s)) ==> {
                &&& old(self).spec_find_scope_index(scope_index as int, name@) == Some(i as int)
                &&& *s == old(self).all_scopes()[i as int]
                &&& final(self).all_scopes() == old(self).all_scopes().update(i as int, *final(s))
                &&& final(self).parents() == old(self).parents()
            },
    {
        if scope_index >= self.scopes.len() {
            return None;
        }
        proof {
            self.lemma_find_scope_index_sound(scope_index as int, name@);
        }
        let found = self.find_scope_index(scope_index, name);
        if found.is_none() {
            return None;
        }
        let index = found.unwrap();
        Some((index, &mut self.scopes[index]))
    }

    /// The nearest scope from the most recently opened one outward that
    /// declares `name`, with its number, to change in place.
    pub fn find_from_current_scope(&mut self, name: &str) -> (r: Option<(usize, &mut Scope)>)
        requires
            old(self).wf(),
        ensures
            r is Some <==> old(self).spec_find_scope_index(old(self).parents().len() - 1, name@) is Some,
            r is None ==> *final(self) == *old(self),
            r matches Some((i, s)) ==> {
                &&& old(self).spec_find_scope_index(old(self).parents().len() - 1, name@) == Some(i as int)
                &&& *s == old(self).all_scopes()[i as int]
                &&& final(self).all_scopes() == old(self).all_scopes().update(i as int, *final(s))
                &&& final(self).parents() == old(self).parents()
            },
    {
        let current = self.tree.len() - 1;
        self.find_from_scope(current, name)
    }

    /// Looking a name up from a scope gives the same answer in a tree with
    /// more scopes opened after it.
    pub proof fn lemma_find_in_prefix(small: ScopeTree, big: ScopeTree, start: int, name: Seq<char>)
        requires
            small.wf(),
            ScopeTree::extends(small, big),
            0 <= start < small.all_scopes().len(),
        ensures
            big.spec_find_scope_index(start, name) == small.spec_find_scope_index(start, name),
        decreases start,
    {
        if start > 0 {
            ScopeTree::lemma_find_in_prefix(small, big, small.parents()[start] as int, name);
        }
    }

    /// `big` is `small` with more scopes opened after its own.
    pub open spec fn extends(small: ScopeTree, big: ScopeTree) -> bool {
        &&& small.all_scopes().len() <= big.all_scopes().len()
        &&& small.parents().len() <= big.parents().len()
        &&& forall|i: int| 0 <= i < small.all_scopes().len() ==> big.all_scopes()[i] == small.all_scopes()[i]
        &&& forall|i: int| 0 <= i < small.parents().len() ==> big.parents()[i] == small.parents()[i]
    }

    /// Looking a name up from one of its scopes gives the same answer in
    /// every tree that opens more scopes after them.
    pub proof fn lemma_find_in_any_extension(small: ScopeTree)
        requires
            small.wf(),
        ensures
            forall|big: ScopeTree, start: int, name: Seq<char>|
                ScopeTree::extends(small, big) && 0 <= start < small.all_scopes().len() ==>
                #[trigger] big.spec_find_scope_index(start, name) == small.spec_find_scope_index(start, name),
    {
        assert forall|big: ScopeTree, start: int, name: Seq<char>|
            ScopeTree::extends(small, big) && 0 <= start < small.all_scopes().len() implies
            #[trigger] big.spec_find_scope_index(start, name) == small.spec_find_scope_index(start, name) by {
            ScopeTree::lemma_find_in_prefix(small, big, start, name);
        }
    }

    /// What the lookup finds is a scope from `start` outward that declares
    /// `name`; when it finds nothing, no scope from `start` outward declares it.
    pub proof fn lemma_find_scope_index_sound(&self, start: int, name: Seq<char>)
        requires
            self.wf(),
            0 <= start < self.all_scopes().len(),
        ensures
            match self.spec_find_scope_index(start, name) {
                Some(i) => {
                    &&& 0 <= i <= start
                    &&& self.spec_scope_contains(i, name)
                    &&& self.is_ancestor(i, start)
                },
                None => forall|a: int| #[trigger] self.is_ancestor(a, start) ==> !self.spec_scope_contains(a, name),
            },
        decreases start,
    {
        if !self.spec_scope_contains(start, name) && start > 0 {
            let parent = self.parents()[start] as int;
            self.lemma_find_scope_index_sound(parent, name);
            if self.spec_find_scope_index(start, name) is None {
                assert forall|a: int| #[trigger] self.is_ancestor(a, start) implies !self.spec_scope_contains(a, name) by {
                    if a != start {
                        assert(self.is_ancestor(a, parent));
                    }
                }
            }
        } else if !self.spec_scope_contains(start, name) {
            assert forall|a: int| #[trigger] self.is_ancestor(a, start) implies !self.spec_scope_contains(a, name) by {
            }
        }
    }
}

/// Where the struct an `impl` block is for was declared, and where the block is.
pub struct StructImplView {
    pub struct_name: String,
    pub struct_node_index: AstNodeIndex,
    pub struct_scope_index: usize,
    pub impl_block_node_index: AstNodeIndex,
    pub impl_block_scope_index: usize,
}

impl StructImplView {
    pub fn new(
        struct_name: String,
        struct_node_index: AstNodeIndex,
        struct_scope_index: usize,
        impl_block_node_index: AstNodeIndex,
        impl_block_scope_index: usize,
    ) -> (r: Self)
        ensures
            r.struct_name == struct_name,
            r.struct_node_index == struct_node_index,
            r.struct_scope_index == struct_scope_index,
            r.impl_block_node_index == impl_block_node_index,
            r.impl_block_scope_index == impl_block_scope_index,
    {
        Self {
            struct_name,
            struct_node_index,
            struct_scope_index,
            impl_block_node_index,
            impl_block_scope_index,
        }
    }
}

/// The scopes found so far and the scope being read.
pub struct NameResolvingContext {
    pub local_scopes: ScopeTree,
    current_scope: usize,
    struct_impl_view: Vec<StructImplView>,
    is_within_impl_block: bool,
}

impl Default for NameResolvingContext {
    fn default() -> (r: Self)
        ensures
            r.scope_tree().wf(),
            r.scope_tree().all_scopes().len() == 1,
            r.scope_tree().all_scopes()[0].is_empty_scope(),
            r.current_scope_index() == 0,
            r.wf(),
            !r.within_impl_block(),
            r.bound_struct() is None,
    {
        Self {
            local_scopes: ScopeTree::new(),
            current_scope: 0,
            struct_impl_view: Vec::new(),
            is_within_impl_block: false,
        }
    }
}

impl NameResolvingContext {
    /// The number of the scope being read.
    pub closed spec fn current_scope_index(&self) -> int {
        self.current_scope as int
    }

    /// The scopes are well nested, the scope being read exists, every
    /// `impl` block entered is recorded in its scope, and inside an `impl`
    /// block there is one entered.
    pub closed spec fn wf(&self) -> bool {
        &&& self.local_scopes.wf()
        &&& self.current_scope < self.local_scopes.scopes@.len()
        &&& forall|i: int| 0 <= i < self.struct_impl_view@.len() ==> {
            let view = #[trigger] self.struct_impl_view@[i];
            &&& view.struct_scope_index < self.local_scopes.scopes@.len()
            &&& view.impl_block_scope_index < self.local_scopes.scopes@.len()
            &&& self.local_scopes.scopes@[view.impl_block_scope_index as int].impl_blocks@.dom().contains(view.struct_name@)
        }
        &&& self.is_within_impl_block ==> self.struct_impl_view@.len() > 0
    }

    /// Whether the pass is inside an `impl` block.
    pub closed spec fn within_impl_block(&self) -> bool {
        self.is_within_impl_block
    }

    /// The `impl` block entered last: the name of its struct, the scope that
    /// declares the struct and the scope of the block.
    pub closed spec fn bound_struct(&self) -> Option<(Seq<char>, int, int)> {
        if self.struct_impl_view@.len() > 0 {
            let view = self.struct_impl_view@.last();
            Some((view.struct_name@, view.struct_scope_index as int, view.impl_block_scope_index as int))
        } else {
            None
        }
    }

    /// Every scope of `a` is in `b` with the same impl blocks.
    pub closed spec fn keeps_impl_blocks(a: ScopeTree, b: ScopeTree) -> bool {
        &&& a.scopes@.len() <= b.scopes@.len()
        &&& forall|k: int| 0 <= k < a.scopes@.len() ==> (#[trigger] b.scopes@[k]).impl_blocks@.dom() == a.scopes@[k].impl_blocks@.dom()
    }

    /// The scopes found so far.
    pub closed spec fn scope_tree(&self) -> ScopeTree {
        self.local_scopes
    }

    /// Scope `scope_index`.
    pub fn get_scope(&self, scope_index: usize) -> (r: &Scope)
        requires
            scope_index < self.scope_tree().all_scopes().len(),
        ensures
            *r == self.scope_tree().all_scopes()[scope_index as int],
    {
        &self.local_scopes.scopes[scope_index]
    }

    /// Scope `scope_index`, to change in place.
    pub fn get_scope_mut(&mut self, scope_index: usize) -> (r: &mut Scope)
        requires
            scope_index < old(self).scope_tree().all_scopes().len(),
        ensures
            *r == old(self).scope_tree().all_scopes()[scope_index as int],
            final(self).scope_tree().all_scopes() == old(self).scope_tree().all_scopes().update(scope_index as int, *final(r)),
            final(self).scope_tree().parents() == old(self).scope_tree().parents(),
            final(self).current_scope_index() == old(self).current_scope_index(),
    {
        &mut self.local_scopes.scopes[scope_index]
    }

    /// The scope being read.
    pub fn get_current_scope(&self) -> (r: &Scope)
        requires
            self.current_scope_index() < self.scope_tree().all_scopes().len(),
        ensures
            *r == self.scope_tree().all_scopes()[self.current_scope_index()],
    {
        self.get_scope(self.current_scope)
    }

    /// The scope being read, to change in place.
    pub fn get_current_scope_mut(&mut self) -> (r: &mut Scope)
        requires
            old(self).current_scope_index() < old(self).scope_tree().all_scopes().len(),
        ensures
            *r == old(self).scope_tree().all_scopes()[old(self).current_scope_index()],
            final(self).scope_tree().all_scopes() == old(self).scope_tree().all_scopes().update(old(self).current_scope_index(), *final(r)),
            final(self).scope_tree().parents() == old(self).scope_tree().parents(),
            final(self).current_scope_index() == old(self).current_scope_index(),
    {
        let current = self.current_scope;
        self.get_scope_mut(current)
    }
}

impl AstContext for NameResolvingContext {}


/// Why the name resolving pass refuses a declaration.
#[derive(Debug, Clone, Copy, PartialEq, Eq, Structural)]
pub enum NameResolvingError {
    /// The struct of the enclosing `impl` block is not declared where it was found.
    StructNotFoundForFunction,
    /// The struct's `impl` blocks already declare a function of that name.
    DuplicatedImplFunction,
    /// The struct's `impl` blocks already declare a method of that name.
    DuplicatedImplMethod,
    /// The scope already declares the function's name.
    DuplicatedFunction,
    /// Two parameters have the same name, or a method's parameter is called `self`.
    DuplicatedParameter,
    /// A `let` would hide a const of the same scope.
    LetShadowsConst,
    /// A `let` would hide a static of the same scope.
    LetShadowsStatic,
    /// The scope already declares the static's name.
    StaticRedefined,
    /// The scope already declares the const's name.
    ConstRedefined,
    /// The scope already declares the struct's name.
    StructRedefined,
    /// No scope declares the name an `impl` block is for.
    NameNotFound,
    /// The name an `impl` block is for is not a struct.
    StructNotFound,
}

/// Whether two of the names are the same.
pub open spec fn has_repeated_name(names: Seq<String>) -> bool {
    exists|i: int, j: int| 0 <= i < j < names.len() && names[i]@ == names[j]@
}

/// Whether the scope's variables are exactly `names`, each recorded once
/// with the node number that the pass gives parameters.
pub open spec fn declares_names(scope: Scope, names: Seq<String>) -> bool {
    &&& forall|n: Seq<char>| #[trigger] scope.variables@.dom().contains(n)
        <==> exists|i: int| 0 <= i < names.len() && names[i]@ == n
    &&& forall|i: int| 0 <= i < names.len() ==> #[trigger] scope.variables@[names[i]@]@ == seq![AstNodeIndex(1)]
}

/// Whether some name repeats.
fn has_repeated_parameter(names: &Vec<String>) -> (r: bool)
    ensures
        r == has_repeated_name(names@),
{
    let mut j: usize = 0;
    while j < names.len()
        invariant
            j <= names@.len(),
            forall|a: int, b: int| 0 <= a < b < j ==> names@[a]@ != names@[b]@,
        decreases names@.len() - j,
    {
        let mut i: usize = 0;
        while i < j
            invariant
                i <= j < names@.len(),
                forall|a: int| 0 <= a < i ==> names@[a]@ != names@[j as int]@,
            decreases j - i,
        {
            if str_eq(names[i].as_str(), names[j].as_str()) {
                return true;
            }
            i = i + 1;
        }
        j = j + 1;
    }
    false
}

/// Whether one of the names is `self`.
fn has_self_parameter(names: &Vec<String>) -> (r: bool)
    ensures
        r == exists|i: int| 0 <= i < names@.len() && names@[i]@ == "self"@,
{
    let mut i: usize = 0;
    while i < names.len()
        invariant
            i <= names@.len(),
            forall|a: int| 0 <= a < i ==> names@[a]@ != "self"@,
        decreases names@.len() - i,
    {
        if str_eq(names[i].as_str(), "self") {
            return true;
        }
        i = i + 1;
    }
    false
}

impl NameResolvingContext {
    /// Opens a scope inside the one being read and reads it; gives back the
    /// scope to return to.
    pub fn enter_new_naming_scope(&mut self) -> (previous: usize)
        requires
            old(self).wf(),
        ensures
            final(self).wf(),
            previous == old(self).current_scope_index(),
            final(self).current_scope_index() == old(self).scope_tree().all_scopes().len(),
            final(self).scope_tree().parents() == old(self).scope_tree().parents().push(previous),
            final(self).scope_tree().all_scopes().len() == old(self).scope_tree().all_scopes().len() + 1,
            final(self).scope_tree().all_scopes().last().is_empty_scope(),
            forall|i: int| 0 <= i < old(self).scope_tree().all_scopes().len() ==> #[trigger] final(self).scope_tree().all_scopes()[i] == old(self).scope_tree().all_scopes()[i],
            final(self).within_impl_block() == old(self).within_impl_block(),
            final(self).bound_struct() == old(self).bound_struct(),
    {
        let previous = self.current_scope;
        let (new_scope, _) = self.local_scopes.stack_scope(Some(previous));
        self.current_scope = new_scope;
        proof {
            assert(NameResolvingContext::keeps_impl_blocks(old(self).local_scopes, self.local_scopes));
        }
        previous
    }

    /// Goes back to reading scope `previous`.
    pub fn leave_naming_scope(&mut self, previous: usize)
        requires
            old(self).wf(),
            previous < old(self).scope_tree().all_scopes().len(),
        ensures
            final(self).wf(),
            final(self).current_scope_index() == previous,
            final(self).scope_tree() == old(self).scope_tree(),
            final(self).within_impl_block() == old(self).within_impl_block(),
            final(self).bound_struct() == old(self).bound_struct(),
    {
        self.current_scope = previous;
    }

    /// Replaces the scope being read by `scope`, which has the same impl
    /// blocks.
    fn put_current_scope(&mut self, scope: Scope)
        requires
            old(self).wf(),
            scope.impl_blocks@.dom() == old(self).local_scopes.scopes@[old(self).current_scope as int].impl_blocks@.dom(),
        ensures
            final(self).wf(),
            final(self).local_scopes.scopes@ == old(self).local_scopes.scopes@.update(old(self).current_scope as int, scope),
            final(self).local_scopes.tree == old(self).local_scopes.tree,
            final(self).current_scope == old(self).current_scope,
            final(self).struct_impl_view == old(self).struct_impl_view,
            final(self).is_within_impl_block == old(self).is_within_impl_block,
    {
        let current = self.current_scope;
        let ghost before = self.local_scopes;
        self.local_scopes.scopes.set(current, scope);
        proof {
            assert(NameResolvingContext::keeps_impl_blocks(before, self.local_scopes));
        }
    }

    /// Records each name as a variable of the scope being read, with the
    /// node number that the pass gives parameters.
    fn add_parameter_names(&mut self, names: &Vec<String>)
        requires
            old(self).wf(),
            !has_repeated_name(names@),
            forall|i: int| 0 <= i < names@.len() ==> !old(self).local_scopes.scopes@[old(self).current_scope as int].variables@.dom().contains(#[trigger] names@[i]@),
        ensures
            final(self).wf(),
            final(self).current_scope == old(self).current_scope,
            final(self).local_scopes.tree == old(self).local_scopes.tree,
            final(self).local_scopes.scopes@.len() == old(self).local_scopes.scopes@.len(),
            final(self).struct_impl_view == old(self).struct_impl_view,
            final(self).is_within_impl_block == old(self).is_within_impl_block,
            forall|i: int| 0 <= i < old(self).local_scopes.scopes@.len() && i != old(self).current_scope ==> #[trigger] final(self).local_scopes.scopes@[i] == old(self).local_scopes.scopes@[i],
            ({
                let before = old(self).local_scopes.scopes@[old(self).current_scope as int];
                let after = final(self).local_scopes.scopes@[old(self).current_scope as int];
                &&& after.variables@.dom() == before.variables@.dom().union(Set::new(|n: Seq<char>| exists|i: int| 0 <= i < names@.len() && names@[i]@ == n))
                &&& forall|n: Seq<char>| #[trigger] before.variables@.dom().contains(n) ==> after.variables@[n] == before.variables@[n]
                &&& forall|i: int| 0 <= i < names@.len() ==> #[trigger] after.variables@[names@[i]@]@ == seq![AstNodeIndex(1)]
                &&& after.parent_scope == before.parent_scope
                &&& after.static_declarations == before.static_declarations
                &&& after.const_declarations == before.const_declarations
                &&& after.functions == before.functions
                &&& after.structs == before.structs
                &&& after.impl_blocks == before.impl_blocks
            }),
    {
        let current = self.current_scope;
        let ghost start = self.local_scopes.scopes@[current as int];
        let mut k: usize = 0;
        while k < names.len()
            invariant
                k <= names@.len(),
                current == self.current_scope,
                current == old(self).current_scope,
                self.wf(),
                self.struct_impl_view == old(self).struct_impl_view,
                self.is_within_impl_block == old(self).is_within_impl_block,
                self.local_scopes.tree == old(self).local_scopes.tree,
                self.local_scopes.scopes@.len() == old(self).local_scopes.scopes@.len(),
                start == old(self).local_scopes.scopes@[current as int],
                !has_repeated_name(names@),
                forall|i: int| 0 <= i < names@.len() ==> !start.variables@.dom().contains(#[trigger] names@[i]@),
                forall|i: int| 0 <= i < old(self).local_scopes.scopes@.len() && i != current ==> #[trigger] self.local_scopes.scopes@[i] == old(self).local_scopes.scopes@[i],
                ({
                    let after = self.local_scopes.scopes@[current as int];
                    &&& after.variables@.dom() == start.variables@.dom().union(Set::new(|n: Seq<char>| exists|i: int| 0 <= i < k && names@[i]@ == n))
                    &&& forall|n: Seq<char>| #[trigger] start.variables@.dom().contains(n) ==> after.variables@[n] == start.variables@[n]
                    &&& forall|i: int| 0 <= i < k ==> #[trigger] after.variables@[names@[i]@]@ == seq![AstNodeIndex(1)]
                    &&& after.parent_scope == start.parent_scope
                    &&& after.static_declarations == start.static_declarations
                    &&& after.const_declarations == start.const_declarations
                    &&& after.functions == start.functions
                    &&& after.structs == start.structs
                    &&& after.impl_blocks == start.impl_blocks
                }),
            decreases names@.len() - k,
        {
            let ghost before = self.local_scopes.scopes@[current as int];
            let mut scope = self.local_scopes.scopes.remove(current);
            let ghost removed = self.local_scopes;
            let mut nodes: Vec<AstNodeIndex> = Vec::new();
            nodes.push(AstNodeIndex(1));
            scope.variables.insert(names[k].clone(), nodes);
            self.local_scopes.scopes.insert(current, scope);
            proof {
                assert(self.local_scopes.scopes@ =~= old(self).local_scopes.scopes@.update(current as int, scope)) by {
                    assert forall|i: int| 0 <= i < self.local_scopes.scopes@.len() implies
                        self.local_scopes.scopes@[i] == old(self).local_scopes.scopes@.update(current as int, scope)[i] by {
                        if i < current {
                            assert(self.local_scopes.scopes@[i] == removed.scopes@[i]);
                        } else if i > current {
                            assert(self.local_scopes.scopes@[i] == removed.scopes@[i - 1]);
                        }
                    }
                }
                assert(NameResolvingContext::keeps_impl_blocks(old(self).local_scopes, self.local_scopes));
                let dom = Set::new(|n: Seq<char>| exists|i: int| 0 <= i < k + 1 && names@[i]@ == n);
                let prev_dom = Set::new(|n: Seq<char>| exists|i: int| 0 <= i < k && names@[i]@ == n);
                assert(dom =~= prev_dom.insert(names@[k as int]@)) by {
                    assert forall|n: Seq<char>| dom.contains(n) implies prev_dom.insert(names@[k as int]@).contains(n) by {
                        let i = choose|i: int| 0 <= i < k + 1 && names@[i]@ == n;
                        if i < k {
                            assert(prev_dom.contains(n));
                        }
                    }
                }
                assert(scope.variables@.dom() =~= start.variables@.dom().union(dom));
                assert forall|i: int| 0 <= i < k + 1 implies #[trigger] scope.variables@[names@[i]@]@ == seq![AstNodeIndex(1)] by {
                    if i < k {
                        assert(names@[i]@ != names@[k as int]@);
                    }
                }
                assert forall|n: Seq<char>| #[trigger] start.variables@.dom().contains(n) implies scope.variables@[n] == start.variables@[n] by {
                    if n == names@[k as int]@ {
                        assert(!start.variables@.dom().contains(names@[k as int]@));
                    }
                }
            }
            k = k + 1;
        }
        proof {
            assert(old(self).local_scopes.scopes@[current as int] == start);
        }
    }
}

/// The name resolving pass: it records every declaration in the scope it
/// belongs to, and refuses declarations that clash.
#[derive(Debug, Default)]
pub struct NameResolvingSemantics;


/// The set of the names.
pub open spec fn name_set(names: Seq<String>) -> Set<Seq<char>> {
    Set::new(|n: Seq<char>| exists|i: int| 0 <= i < names.len() && names[i]@ == n)
}

/// `b` is `a` with only the scope being read changed.
pub open spec fn changed_current_scope(a: &NameResolvingContext, b: &NameResolvingContext) -> bool {
    &&& b.wf()
    &&& b.current_scope_index() == a.current_scope_index()
    &&& b.within_impl_block() == a.within_impl_block()
    &&& b.bound_struct() == a.bound_struct()
    &&& b.scope_tree().parents() == a.scope_tree().parents()
    &&& b.scope_tree().all_scopes().len() == a.scope_tree().all_scopes().len()
    &&& forall|k: int| 0 <= k < a.scope_tree().all_scopes().len() && k != a.current_scope_index()
        ==> #[trigger] b.scope_tree().all_scopes()[k] == a.scope_tree().all_scopes()[k]
}

/// Scope `b` is scope `a` with one table changed: the one `which` names.
pub open spec fn same_scope_but(a: Scope, b: Scope, which: int) -> bool {
    &&& b.parent_scope == a.parent_scope
    &&& which != 0 ==> b.variables == a.variables
    &&& which != 1 ==> b.static_declarations == a.static_declarations
    &&& which != 2 ==> b.const_declarations == a.const_declarations
    &&& which != 3 ==> b.structs == a.structs
    &&& which != 4 ==> b.functions == a.functions
    &&& which != 5 ==> b.impl_blocks == a.impl_blocks
}

/// `b` is `a` with a scope opened inside `parent` and read, that declares
/// exactly `names` (and `self` when `with_self`) as variables.
pub open spec fn opened_parameter_scope(
    a: &NameResolvingContext,
    b: &NameResolvingContext,
    parent: int,
    names: Seq<String>,
    with_self: bool,
) -> bool {
    let opened = b.scope_tree().all_scopes().last();
    let declared = if with_self { name_set(names).insert("self"@) } else { name_set(names) };
    &&& b.wf()
    &&& b.current_scope_index() == a.scope_tree().all_scopes().len()
    &&& b.scope_tree().parents() == a.scope_tree().parents().push(parent as usize)
    &&& b.scope_tree().all_scopes().len() == a.scope_tree().all_scopes().len() + 1
    &&& opened.variables@.dom() == declared
    &&& forall|n: Seq<char>| #[trigger] declared.contains(n) ==> opened.variables@[n]@ == seq![AstNodeIndex(1)]
    &&& opened.static_declarations@ == Map::<Seq<char>, AstNodeIndex>::empty()
    &&& opened.const_declarations@ == Map::<Seq<char>, AstNodeIndex>::empty()
    &&& opened.functions@ == Map::<Seq<char>, AstNodeIndex>::empty()
    &&& opened.structs@ == Map::<Seq<char>, StructDeclaration>::empty()
    &&& opened.impl_blocks@ == Map::<Seq<char>, ImplBlock>::empty()
    &&& b.bound_struct() == a.bound_struct()
}

impl NameResolvingSemantics {
    /// `let name`: records a variable in the scope being read, unless the
    /// scope has a const or a static of that name.
    pub fn visit_let_statement(&self, name: String, node: AstNodeIndex, context: &mut NameResolvingContext) -> (r: Result<(), NameResolvingError>)
        requires
            old(context).wf(),
        ensures
            ({
                let before = old(context).scope_tree().all_scopes()[old(context).current_scope_index()];
                let after = final(context).scope_tree().all_scopes()[old(context).current_scope_index()];
                if before.const_declarations@.dom().contains(name@) {
                    r == Err::<(), NameResolvingError>(NameResolvingError::LetShadowsConst) && *final(context) == *old(context)
                } else if before.static_declarations@.dom().contains(name@) {
                    r == Err::<(), NameResolvingError>(NameResolvingError::LetShadowsStatic) && *final(context) == *old(context)
                } else {
                    &&& r is Ok
                    &&& changed_current_scope(old(context), final(context))
                    &&& same_scope_but(before, after, 0)
                    &&& after.variables@.dom() == before.variables@.dom().insert(name@)
                    &&& after.variables@[name@]@ == (if before.variables@.dom().contains(name@) {
                        before.variables@[name@]@
                    } else {
                        Seq::empty()
                    }).push(node)
                    &&& forall|n: Seq<char>| n != name@ && #[trigger] before.variables@.dom().contains(n) ==> after.variables@[n] == before.variables@[n]
                }
            }),
    {
        let current = context.current_scope;
        if context.local_scopes.scopes[current].const_declarations.contains_key(name.as_str()) {
            return Err(NameResolvingError::LetShadowsConst);
        }
        if context.local_scopes.scopes[current].static_declarations.contains_key(name.as_str()) {
            return Err(NameResolvingError::LetShadowsStatic);
        }
        let mut scope = context.local_scopes.scopes.remove(current);
        let ghost start = scope;
        let mut nodes: Vec<AstNodeIndex> = match scope.variables.get(name.as_str()) {
            Some(nodes) => nodes.clone(),
            None => Vec::new(),
        };
        nodes.push(node);
        scope.variables.insert(name, nodes);
        let ghost removed = context.local_scopes;
        context.local_scopes.scopes.insert(current, scope);
        proof {
            assert(context.local_scopes.scopes@ =~= old(context).local_scopes.scopes@.update(current as int, scope));
            assert(NameResolvingContext::keeps_impl_blocks(old(context).local_scopes, context.local_scopes));
        }
        Ok(())
    }

    /// `static name`: records a static in the scope being read, unless the
    /// scope declares the name.
    pub fn visit_static_statement(&self, name: String, node: AstNodeIndex, context: &mut NameResolvingContext) -> (r: Result<(), NameResolvingError>)
        requires
            old(context).wf(),
        ensures
            ({
                let before = old(context).scope_tree().all_scopes()[old(context).current_scope_index()];
                let after = final(context).scope_tree().all_scopes()[old(context).current_scope_index()];
                if before.defines(name@) {
                    r == Err::<(), NameResolvingError>(NameResolvingError::StaticRedefined) && *final(context) == *old(context)
                } else {
                    &&& r is Ok
                    &&& changed_current_scope(old(context), final(context))
                    &&& same_scope_but(before, after, 1)
                    &&& after.static_declarations@ == before.static_declarations@.insert(name@, node)
                }
            }),
    {
        let current = context.current_scope;
        if context.local_scopes.scopes[current].find_in_scope(name.as_str()) {
            return Err(NameResolvingError::StaticRedefined);
        }
        let mut scope = context.local_scopes.scopes.remove(current);
        scope.static_declarations.insert(name, node);
        context.local_scopes.scopes.insert(current, scope);
        proof {
            assert(context.local_scopes.scopes@ =~= old(context).local_scopes.scopes@.update(current as int, scope));
            assert(NameResolvingContext::keeps_impl_blocks(old(context).local_scopes, context.local_scopes));
        }
        Ok(())
    }

    /// `const name`: records a const in the scope being read, unless the
    /// scope declares the name.
    pub fn visit_const_statement(&self, name: String, node: AstNodeIndex, context: &mut NameResolvingContext) -> (r: Result<(), NameResolvingError>)
        requires
            old(context).wf(),
        ensures
            ({
                let before = old(context).scope_tree().all_scopes()[old(context).current_scope_index()];
                let after = final(context).scope_tree().all_scopes()[old(context).current_scope_index()];
                if before.defines(name@) {
                    r == Err::<(), NameResolvingError>(NameResolvingError::ConstRedefined) && *final(context) == *old(context)
                } else {
                    &&& r is Ok
                    &&& changed_current_scope(old(context), final(context))
                    &&& same_scope_but(before, after, 2)
                    &&& after.const_declarations@ == before.const_declarations@.insert(name@, node)
                }
            }),
    {
        let current = context.current_scope;
        if context.local_scopes.scopes[current].find_in_scope(name.as_str()) {
            return Err(NameResolvingError::ConstRedefined);
        }
        let mut scope = context.local_scopes.scopes.remove(current);
        scope.const_declarations.insert(name, node);
        context.local_scopes.scopes.insert(current, scope);
        proof {
            assert(context.local_scopes.scopes@ =~= old(context).local_scopes.scopes@.update(current as int, scope));
            assert(NameResolvingContext::keeps_impl_blocks(old(context).local_scopes, context.local_scopes));
        }
        Ok(())
    }

    /// `struct name`: records the struct in the scope being read, unless the
    /// scope declares the name.
    pub fn visit_struct_statement(&self, name: String, node: AstNodeIndex, context: &mut NameResolvingContext) -> (r: Result<(), NameResolvingError>)
        requires
            old(context).wf(),
        ensures
            ({
                let before = old(context).scope_tree().all_scopes()[old(context).current_scope_index()];
                let after = final(context).scope_tree().all_scopes()[old(context).current_scope_index()];
                if before.defines(name@) {
                    r == Err::<(), NameResolvingError>(NameResolvingError::StructRedefined) && *final(context) == *old(context)
                } else {
                    &&& r is Ok
                    &&& changed_current_scope(old(context), final(context))
                    &&& same_scope_but(before, after, 3)
                    &&& after.structs@.dom() == before.structs@.dom().insert(name@)
                    &&& after.structs@[name@].declared_name() == name@
                    &&& after.structs@[name@].declaration_node() == node
                    &&& after.structs@[name@].declared_fields() == Map::<Seq<char>, Type>::empty()
                    &&& forall|n: Seq<char>| n != name@ && #[trigger] before.structs@.dom().contains(n) ==> after.structs@[n] == before.structs@[n]
                }
            }),
    {
        let current = context.current_scope;
        if context.local_scopes.scopes[current].find_in_scope(name.as_str()) {
            return Err(NameResolvingError::StructRedefined);
        }
        let mut scope = context.local_scopes.scopes.remove(current);
        let declaration = StructDeclaration::new(name.clone(), node);
        scope.structs.insert(name, declaration);
        context.local_scopes.scopes.insert(current, scope);
        proof {
            assert(context.local_scopes.scopes@ =~= old(context).local_scopes.scopes@.update(current as int, scope));
            assert(NameResolvingContext::keeps_impl_blocks(old(context).local_scopes, context.local_scopes));
        }
        Ok(())
    }
}


/// Scope `b` is scope `a` with `name` added to the functions (or, when
/// `as_method`, to the methods) of its `impl` block for `struct_name`.
pub open spec fn impl_member_added(a: Scope, b: Scope, struct_name: Seq<char>, name: Seq<char>, as_method: bool) -> bool {
    let before = a.impl_blocks@[struct_name];
    let after = b.impl_blocks@[struct_name];
    &&& b.impl_blocks@.dom() == a.impl_blocks@.dom()
    &&& forall|n: Seq<char>| n != struct_name && #[trigger] a.impl_blocks@.dom().contains(n) ==> b.impl_blocks@[n] == a.impl_blocks@[n]
    &&& after.bound_struct == before.bound_struct
    &&& after.ast_node_index == before.ast_node_index
    &&& after.struct_ast_node_index == before.struct_ast_node_index
    &&& after.static_variables == before.static_variables
    &&& after.const_variables == before.const_variables
    &&& if as_method {
        after.functions == before.functions && after.methods@.dom() == before.methods@.dom().insert(name)
    } else {
        after.methods == before.methods && after.functions@.dom() == before.functions@.dom().insert(name)
    }
    &&& same_scope_but(a, b, 5)
}

/// `b`'s scopes are `a`'s but for scope `changed`.
pub open spec fn other_scopes_kept(a: &NameResolvingContext, b: &NameResolvingContext, changed: int) -> bool {
    forall|k: int| 0 <= k < a.scope_tree().all_scopes().len() && k != changed ==> #[trigger] b.scope_tree().all_scopes()[k] == a.scope_tree().all_scopes()[k]
}

/// Whether some `impl` block for `struct_name` declares `name`.
pub open spec fn declared_in_some_impl_block(tree: ScopeTree, name: Seq<char>, struct_name: Seq<char>) -> bool {
    exists|i: int| 0 <= i < tree.all_scopes().len() && #[trigger] tree.all_scopes()[i].impl_block_defines(name, struct_name)
}

impl NameResolvingContext {
    /// Adds `name` to the functions or methods of the `impl` block entered
    /// last, in the scope of that block.
    fn add_to_bound_impl_block(&mut self, name: String, as_method: bool)
        requires
            old(self).wf(),
            old(self).struct_impl_view@.len() > 0,
        ensures
            final(self).wf(),
            final(self).current_scope == old(self).current_scope,
            final(self).local_scopes.tree == old(self).local_scopes.tree,
            final(self).local_scopes.scopes@.len() == old(self).local_scopes.scopes@.len(),
            final(self).struct_impl_view == old(self).struct_impl_view,
            final(self).is_within_impl_block == old(self).is_within_impl_block,
            ({
                let view = old(self).struct_impl_view@.last();
                &&& other_scopes_kept(old(self), final(self), view.impl_block_scope_index as int)
                &&& impl_member_added(
                    old(self).local_scopes.scopes@[view.impl_block_scope_index as int],
                    final(self).local_scopes.scopes@[view.impl_block_scope_index as int],
                    view.struct_name@,
                    name@,
                    as_method,
                )
            }),
    {
        let last = self.struct_impl_view.len() - 1;
        let impl_scope = self.struct_impl_view[last].impl_block_scope_index;
        let struct_name = self.struct_impl_view[last].struct_name.clone();
        proof {
            assert(self.struct_impl_view@[last as int] == self.struct_impl_view@.last());
        }
        let ghost before = self.local_scopes;
        let mut scope = self.local_scopes.scopes.remove(impl_scope);
        let ghost scope_before = scope;
        match scope.impl_blocks.get_mut(struct_name.as_str()) {
            Some(block) => {
                if as_method {
                    block.methods.insert(name, MethodDeclaration {});
                } else {
                    block.functions.insert(name, FunctionDeclaration {});
                }
            },
            None => {},
        }
        self.local_scopes.scopes.insert(impl_scope, scope);
        proof {
            assert(self.local_scopes.scopes@ =~= before.scopes@.update(impl_scope as int, scope));
            assert forall|n: Seq<char>| n != struct_name@ && #[trigger] scope_before.impl_blocks@.dom().contains(n)
                implies scope.impl_blocks@[n] == scope_before.impl_blocks@[n] by {}
            assert(scope.impl_blocks@.dom() =~= scope_before.impl_blocks@.dom());
            assert(scope_before == before.scopes@[impl_scope as int]);
            assert forall|k: int| 0 <= k < before.scopes@.len() implies
                (#[trigger] self.local_scopes.scopes@[k]).impl_blocks@.dom() == before.scopes@[k].impl_blocks@.dom() by {
                if k != impl_scope {
                    assert(self.local_scopes.scopes@[k] == before.scopes@[k]);
                }
            }
            assert(NameResolvingContext::keeps_impl_blocks(before, self.local_scopes));
        }
    }
}

impl NameResolvingSemantics {
    /// Entering `impl struct_name`: finds the struct from the scope opened
    /// last outward, records a block for it in the scope being read unless
    /// one is there, and marks the pass as inside an `impl` block. Gives
    /// back whether the pass was inside one before.
    pub fn enter_impl_statement(&self, struct_name: String, impl_node: AstNodeIndex, context: &mut NameResolvingContext) -> (r: Result<bool, NameResolvingError>)
        requires
            old(context).wf(),
        ensures
            ({
                let tree = old(context).scope_tree();
                let found = tree.spec_find_scope_index(tree.parents().len() - 1, struct_name@);
                let current = old(context).current_scope_index();
                match found {
                    None => r == Err::<bool, NameResolvingError>(NameResolvingError::NameNotFound) && *final(context) == *old(context),
                    Some(i) => if !tree.all_scopes()[i].structs@.dom().contains(struct_name@) {
                        r == Err::<bool, NameResolvingError>(NameResolvingError::StructNotFound) && *final(context) == *old(context)
                    } else {
                        let before = tree.all_scopes()[current];
                        let after = final(context).scope_tree().all_scopes()[current];
                        &&& r == Ok::<bool, NameResolvingError>(old(context).within_impl_block())
                        &&& final(context).wf()
                        &&& final(context).within_impl_block()
                        &&& final(context).bound_struct() == Some((struct_name@, i, current))
                        &&& final(context).current_scope_index() == current
                        &&& other_scopes_kept(old(context), final(context), current)
                        &&& final(context).scope_tree().parents() == tree.parents()
                        &&& final(context).scope_tree().all_scopes().len() == tree.all_scopes().len()
                        &&& same_scope_but(before, after, 5)
                        &&& after.impl_blocks@.dom() == before.impl_blocks@.dom().insert(struct_name@)
                        &&& forall|n: Seq<char>| #[trigger] before.impl_blocks@.dom().contains(n) ==> after.impl_blocks@[n] == before.impl_blocks@[n]
                        &&& !before.impl_blocks@.dom().contains(struct_name@) ==> {
                            let block = after.impl_blocks@[struct_name@];
                            &&& block.bound_struct@ == struct_name@
                            &&& block.ast_node_index == impl_node
                            &&& block.struct_ast_node_index == tree.all_scopes()[i].structs@[struct_name@].declaration_node()
                            &&& block.static_variables@ == Map::<Seq<char>, AstNodeIndex>::empty()
                            &&& block.const_variables@ == Map::<Seq<char>, AstNodeIndex>::empty()
                            &&& block.functions@ == Map::<Seq<char>, FunctionDeclaration>::empty()
                            &&& block.methods@ == Map::<Seq<char>, MethodDeclaration>::empty()
                        }
                    },
                }
            }),
    {
        let last = context.local_scopes.tree.len() - 1;
        proof {
            context.local_scopes.lemma_find_scope_index_sound(last as int, struct_name@);
        }
        let struct_scope = match context.local_scopes.find_scope_index(last, struct_name.as_str()) {
            None => {
                return Err(NameResolvingError::NameNotFound);
            },
            Some(i) => i,
        };
        let struct_node = match context.local_scopes.scopes[struct_scope].structs.get(struct_name.as_str()) {
            None => {
                return Err(NameResolvingError::StructNotFound);
            },
            Some(declaration) => declaration.ast_node_index,
        };
        let current = context.current_scope;
        let ghost before = context.local_scopes;
        if !context.local_scopes.scopes[current].impl_blocks.contains_key(struct_name.as_str()) {
            let mut scope = context.local_scopes.scopes.remove(current);
            scope.impl_blocks.insert(struct_name.clone(), ImplBlock::new(struct_name.clone(), impl_node, struct_node));
            context.local_scopes.scopes.insert(current, scope);
            proof {
                assert(context.local_scopes.scopes@ =~= before.scopes@.update(current as int, scope));
            }
        }
        let ghost views_before = context.struct_impl_view@;
        context.struct_impl_view.push(StructImplView::new(struct_name, struct_node, struct_scope, impl_node, current));
        let previous = context.is_within_impl_block;
        context.is_within_impl_block = true;
        proof {
            assert forall|i: int| 0 <= i < context.struct_impl_view@.len() implies {
                let view = #[trigger] context.struct_impl_view@[i];
                &&& view.struct_scope_index < context.local_scopes.scopes@.len()
                &&& view.impl_block_scope_index < context.local_scopes.scopes@.len()
                &&& context.local_scopes.scopes@[view.impl_block_scope_index as int].impl_blocks@.dom().contains(view.struct_name@)
            } by {
                if i < views_before.len() {
                    assert(context.struct_impl_view@[i] == views_before[i]);
                    assert(old(context).struct_impl_view@[i] == views_before[i]);
                    let k = views_before[i].impl_block_scope_index as int;
                    assert(before.scopes@[k].impl_blocks@.dom().contains(views_before[i].struct_name@));
                    if k != current {
                        assert(context.local_scopes.scopes@[k] == before.scopes@[k]);
                    }
                }
            }
        }
        Ok(previous)
    }

    /// Leaving an `impl` block: whether the pass is inside one becomes
    /// `previous` again.
    pub fn leave_impl_statement(&self, previous: bool, context: &mut NameResolvingContext)
        requires
            old(context).wf(),
            previous ==> old(context).bound_struct() is Some,
        ensures
            final(context).wf(),
            final(context).within_impl_block() == previous,
            final(context).scope_tree() == old(context).scope_tree(),
            final(context).current_scope_index() == old(context).current_scope_index(),
            final(context).bound_struct() == old(context).bound_struct(),
    {
        context.is_within_impl_block = previous;
    }

    /// Entering `fn name(parameters)`: inside an `impl` block the function
    /// joins the block entered last, unless that struct is missing or one of
    /// its blocks already declares the name; elsewhere it joins the scope
    /// being read, unless the scope declares the name. Then a scope is opened
    /// for the parameters, unless two have the same name. Gives back the
    /// scope to return to.
    pub fn try_enter_function_statement(
        &self,
        fn_node: AstNodeIndex,
        name: String,
        parameters: &Vec<String>,
        context: &mut NameResolvingContext,
    ) -> (r: Result<usize, NameResolvingError>)
        requires
            old(context).wf(),
        ensures
            r matches Ok(outer) ==> outer < final(context).scope_tree().all_scopes().len(),
            ({
                let tree = old(context).scope_tree();
                let current = old(context).current_scope_index();
                if !old(context).within_impl_block() {
                    if tree.all_scopes()[current].defines(name@) {
                        r == Err::<usize, NameResolvingError>(NameResolvingError::DuplicatedFunction) && *final(context) == *old(context)
                    } else if has_repeated_name(parameters@) {
                        r == Err::<usize, NameResolvingError>(NameResolvingError::DuplicatedParameter) && *final(context) == *old(context)
                    } else {
                        let before = tree.all_scopes()[current];
                        let after = final(context).scope_tree().all_scopes()[current];
                        &&& r == Ok::<usize, NameResolvingError>(current as usize)
                        &&& opened_parameter_scope(old(context), final(context), current, parameters@, false)
                        &&& other_scopes_kept(old(context), final(context), current)
                        &&& same_scope_but(before, after, 4)
                        &&& after.functions@ == before.functions@.insert(name@, fn_node)
                        &&& !final(context).within_impl_block()
                    }
                } else {
                    let (struct_name, struct_scope, impl_scope) = old(context).bound_struct()->0;
                    if !tree.all_scopes()[struct_scope].structs@.dom().contains(struct_name) {
                        r == Err::<usize, NameResolvingError>(NameResolvingError::StructNotFoundForFunction) && *final(context) == *old(context)
                    } else if declared_in_some_impl_block(tree, name@, struct_name) {
                        r == Err::<usize, NameResolvingError>(NameResolvingError::DuplicatedImplFunction) && *final(context) == *old(context)
                    } else if has_repeated_name(parameters@) {
                        r == Err::<usize, NameResolvingError>(NameResolvingError::DuplicatedParameter) && *final(context) == *old(context)
                    } else {
                        &&& r == Ok::<usize, NameResolvingError>(current as usize)
                        &&& opened_parameter_scope(old(context), final(context), impl_scope, parameters@, false)
                        &&& other_scopes_kept(old(context), final(context), impl_scope)
                        &&& impl_member_added(tree.all_scopes()[impl_scope], final(context).scope_tree().all_scopes()[impl_scope],
                            struct_name, name@, false)
                        &&& final(context).within_impl_block()
                    }
                }
            }),
    {
        let current = context.current_scope;
        if !context.is_within_impl_block {
            if context.local_scopes.scopes[current].find_in_scope(name.as_str()) {
                return Err(NameResolvingError::DuplicatedFunction);
            }
            if has_repeated_parameter(parameters) {
                return Err(NameResolvingError::DuplicatedParameter);
            }
            let mut scope = context.local_scopes.scopes.remove(current);
            scope.functions.insert(name, fn_node);
            context.local_scopes.scopes.insert(current, scope);
            proof {
                assert(context.local_scopes.scopes@ =~= old(context).local_scopes.scopes@.update(current as int, scope));
                assert(NameResolvingContext::keeps_impl_blocks(old(context).local_scopes, context.local_scopes));
            }
            let ghost declared = *context;
            let previous = context.enter_new_naming_scope();
            context.add_parameter_names(parameters);
            proof {
                assert forall|k: int| 0 <= k < old(context).local_scopes.scopes@.len() && k != current
                    implies #[trigger] context.local_scopes.scopes@[k] == old(context).local_scopes.scopes@[k] by {
                    assert(declared.scope_tree().all_scopes()[k] == old(context).scope_tree().all_scopes()[k]);
                }
                assert(context.local_scopes.scopes@.last().variables@.dom() =~= name_set(parameters@));
            }
            Ok(previous)
        } else {
            let last = context.struct_impl_view.len() - 1;
            proof {
                assert(context.struct_impl_view@[last as int] == context.struct_impl_view@.last());
            }
            let struct_scope = context.struct_impl_view[last].struct_scope_index;
            let impl_scope = context.struct_impl_view[last].impl_block_scope_index;
            if !context.local_scopes.scopes[struct_scope].structs.contains_key(context.struct_impl_view[last].struct_name.as_str()) {
                return Err(NameResolvingError::StructNotFoundForFunction);
            }
            if context.local_scopes.find_in_all_impl_blocks(name.as_str(), context.struct_impl_view[last].struct_name.as_str()) {
                return Err(NameResolvingError::DuplicatedImplFunction);
            }
            if has_repeated_parameter(parameters) {
                return Err(NameResolvingError::DuplicatedParameter);
            }
            context.add_to_bound_impl_block(name, false);
            let ghost declared = *context;
            context.current_scope = impl_scope;
            context.enter_new_naming_scope();
            context.add_parameter_names(parameters);
            proof {
                assert forall|k: int| 0 <= k < old(context).local_scopes.scopes@.len() && k != impl_scope
                    implies #[trigger] context.local_scopes.scopes@[k] == old(context).local_scopes.scopes@[k] by {
                    assert(declared.scope_tree().all_scopes()[k] == old(context).scope_tree().all_scopes()[k]);
                }
                assert(context.local_scopes.scopes@.last().variables@.dom() =~= name_set(parameters@));
            }
            Ok(current)
        }
    }

    /// Leaving a function: the pass reads scope `outer` again.
    pub fn leave_function_statement(&self, outer: usize, context: &mut NameResolvingContext)
        requires
            old(context).wf(),
            outer < old(context).scope_tree().all_scopes().len(),
        ensures
            final(context).wf(),
            final(context).current_scope_index() == outer,
            final(context).scope_tree() == old(context).scope_tree(),
            final(context).within_impl_block() == old(context).within_impl_block(),
            final(context).bound_struct() == old(context).bound_struct(),
    {
        context.leave_naming_scope(outer);
    }

    /// Entering a method `name(parameters)` of the `impl` block entered last:
    /// it joins that block's methods, unless the struct is missing or one of
    /// its blocks already declares the name; a scope inside the block's scope
    /// is opened with `self` and the parameters, unless a parameter repeats
    /// or is called `self`, and the pass is marked as inside an `impl` block.
    /// Gives back the scope to return to and whether the pass was inside an
    /// `impl` block.
    pub fn try_enter_method_statement(
        &self,
        name: String,
        parameters: &Vec<String>,
        context: &mut NameResolvingContext,
    ) -> (r: Result<(usize, bool), NameResolvingError>)
        requires
            old(context).wf(),
            old(context).bound_struct() is Some,
        ensures
            r matches Ok(entered) ==> entered.0 < final(context).scope_tree().all_scopes().len(),
            ({
                let tree = old(context).scope_tree();
                let current = old(context).current_scope_index();
                let (struct_name, struct_scope, impl_scope) = old(context).bound_struct()->0;
                if !tree.all_scopes()[struct_scope].structs@.dom().contains(struct_name) {
                    r == Err::<(usize, bool), NameResolvingError>(NameResolvingError::StructNotFoundForFunction) && *final(context) == *old(context)
                } else if declared_in_some_impl_block(tree, name@, struct_name) {
                    r == Err::<(usize, bool), NameResolvingError>(NameResolvingError::DuplicatedImplMethod) && *final(context) == *old(context)
                } else if has_repeated_name(parameters@) || name_set(parameters@).contains("self"@) {
                    r == Err::<(usize, bool), NameResolvingError>(NameResolvingError::DuplicatedParameter) && *final(context) == *old(context)
                } else {
                    &&& r == Ok::<(usize, bool), NameResolvingError>((current as usize, old(context).within_impl_block()))
                    &&& opened_parameter_scope(old(context), final(context), impl_scope, parameters@, true)
                    &&& other_scopes_kept(old(context), final(context), impl_scope)
                    &&& impl_member_added(tree.all_scopes()[impl_scope], final(context).scope_tree().all_scopes()[impl_scope],
                        struct_name, name@, true)
                    &&& final(context).within_impl_block()
                }
            }),
    {
        let current = context.current_scope;
        let last = context.struct_impl_view.len() - 1;
        proof {
            assert(context.struct_impl_view@[last as int] == context.struct_impl_view@.last());
        }
        let struct_scope = context.struct_impl_view[last].struct_scope_index;
        let impl_scope = context.struct_impl_view[last].impl_block_scope_index;
        if !context.local_scopes.scopes[struct_scope].structs.contains_key(context.struct_impl_view[last].struct_name.as_str()) {
            return Err(NameResolvingError::StructNotFoundForFunction);
        }
        if context.local_scopes.find_in_all_impl_blocks(name.as_str(), context.struct_impl_view[last].struct_name.as_str()) {
            return Err(NameResolvingError::DuplicatedImplMethod);
        }
        if has_repeated_parameter(parameters) || has_self_parameter(parameters) {
            proof {
                if !has_repeated_name(parameters@) {
                    let i = choose|i: int| 0 <= i < parameters@.len() && parameters@[i]@ == "self"@;
                    assert(name_set(parameters@).contains(parameters@[i]@));
                }
            }
            return Err(NameResolvingError::DuplicatedParameter);
        }
        proof {
            if name_set(parameters@).contains("self"@) {
                let i = choose|i: int| 0 <= i < parameters@.len() && parameters@[i]@ == "self"@;
                assert(parameters@[i]@ == "self"@);
            }
        }
        context.add_to_bound_impl_block(name, true);
        let ghost declared = *context;
        context.current_scope = impl_scope;
        context.enter_new_naming_scope();
        let previous_flag = context.is_within_impl_block;
        context.is_within_impl_block = true;
        let mut self_parameter: Vec<String> = Vec::new();
        self_parameter.push("self".to_owned());
        proof {
            assert(!has_repeated_name(self_parameter@));
        }
        context.add_parameter_names(&self_parameter);
        proof {
            assert(name_set(self_parameter@) =~= Set::empty().insert("self"@)) by {
                assert(self_parameter@[0]@ == "self"@);
            }
        }
        context.add_parameter_names(parameters);
        proof {
            assert forall|k: int| 0 <= k < old(context).local_scopes.scopes@.len() && k != impl_scope
                implies #[trigger] context.local_scopes.scopes@[k] == old(context).local_scopes.scopes@[k] by {
                assert(declared.scope_tree().all_scopes()[k] == old(context).scope_tree().all_scopes()[k]);
            }
            assert(context.local_scopes.scopes@.last().variables@.dom() =~= name_set(parameters@).insert("self"@));
        }
        Ok((current, previous_flag))
    }

    /// Leaving a method: whether the pass is inside an `impl` block becomes
    /// `previous_flag` again, and it reads scope `outer` again.
    pub fn leave_method_statement(&self, outer: usize, previous_flag: bool, context: &mut NameResolvingContext)
        requires
            old(context).wf(),
            outer < old(context).scope_tree().all_scopes().len(),
            previous_flag ==> old(context).bound_struct() is Some,
        ensures
            final(context).wf(),
            final(context).current_scope_index() == outer,
            final(context).within_impl_block() == previous_flag,
            final(context).scope_tree() == old(context).scope_tree(),
            final(context).bound_struct() == old(context).bound_struct(),
    {
        context.is_within_impl_block = previous_flag;
        context.current_scope = outer;
    }
}

/// Whether a function called `name` with these parameters may be entered:
/// elsewhere than in an `impl` block the scope being read must not declare
/// the name; in one, the struct of the block entered last must be declared
/// and none of its blocks may declare the name. No two parameters may share
/// a name.
pub open spec fn function_entry_allowed(context: NameResolvingContext, name: Seq<char>, parameters: Seq<String>) -> bool {
    let tree = context.scope_tree();
    &&& !has_repeated_name(parameters)
    &&& if !context.within_impl_block() {
        !tree.all_scopes()[context.current_scope_index()].defines(name)
    } else {
        let (struct_name, struct_scope, impl_scope) = context.bound_struct()->0;
        &&& tree.all_scopes()[struct_scope].structs@.dom().contains(struct_name)
        &&& !declared_in_some_impl_block(tree, name, struct_name)
    }
}

/// Whether a method called `name` with these parameters may be entered in
/// the `impl` block entered last: its struct must be declared, none of its
/// blocks may declare the name, no two parameters may share a name, and
/// none may be called `self`.
pub open spec fn method_entry_allowed(context: NameResolvingContext, name: Seq<char>, parameters: Seq<String>) -> bool {
    let tree = context.scope_tree();
    let (struct_name, struct_scope, impl_scope) = context.bound_struct()->0;
    &&& tree.all_scopes()[struct_scope].structs@.dom().contains(struct_name)
    &&& !declared_in_some_impl_block(tree, name, struct_name)
    &&& !has_repeated_name(parameters)
    &&& !name_set(parameters).contains("self"@)
}

impl NameResolvingSemantics {
    /// Entering `fn name(parameters)`, where that is allowed: the function is
    /// declared (in the `impl` block entered last, inside one; in the scope
    /// being read, elsewhere) and a scope is opened for the parameters.
    /// Gives back the scope to return to.
    pub fn enter_function_statement(
        &self,
        fn_node: AstNodeIndex,
        name: String,
        parameters: &Vec<String>,
        context: &mut NameResolvingContext,
    ) -> (r: usize)
        requires
            old(context).wf(),
            function_entry_allowed(*old(context), name@, parameters@),
        ensures
            r < final(context).scope_tree().all_scopes().len(),
            ({
                let tree = old(context).scope_tree();
                let current = old(context).current_scope_index();
                if !old(context).within_impl_block() {
                    let before = tree.all_scopes()[current];
                    let after = final(context).scope_tree().all_scopes()[current];
                    &&& r == current
                    &&& opened_parameter_scope(old(context), final(context), current, parameters@, false)
                    &&& other_scopes_kept(old(context), final(context), current)
                    &&& same_scope_but(before, after, 4)
                    &&& after.functions@ == before.functions@.insert(name@, fn_node)
                    &&& !final(context).within_impl_block()
                } else {
                    let (struct_name, struct_scope, impl_scope) = old(context).bound_struct()->0;
                    &&& r == current
                    &&& opened_parameter_scope(old(context), final(context), impl_scope, parameters@, false)
                    &&& other_scopes_kept(old(context), final(context), impl_scope)
                    &&& impl_member_added(tree.all_scopes()[impl_scope], final(context).scope_tree().all_scopes()[impl_scope],
                        struct_name, name@, false)
                    &&& final(context).within_impl_block()
                }
            }),
    {
        match self.try_enter_function_statement(fn_node, name, parameters, context) {
            Ok(outer) => outer,
            Err(_) => {
                proof {
                    assert(false);
                }
                0
            },
        }
    }

    /// Entering a method `name(parameters)` of the `impl` block entered
    /// last, where that is allowed: it joins the block's methods, a scope
    /// inside the block's scope is opened with `self` and the parameters, and
    /// the pass is marked as inside an `impl` block. Gives back the scope to
    /// return to and whether the pass was inside an `impl` block.
    pub fn enter_method_statement(
        &self,
        name: String,
        parameters: &Vec<String>,
        context: &mut NameResolvingContext,
    ) -> (r: (usize, bool))
        requires
            old(context).wf(),
            old(context).bound_struct() is Some,
            method_entry_allowed(*old(context), name@, parameters@),
        ensures
            r.0 < final(context).scope_tree().all_scopes().len(),
            ({
                let tree = old(context).scope_tree();
                let current = old(context).current_scope_index();
                let (struct_name, struct_scope, impl_scope) = old(context).bound_struct()->0;
                &&& r == (current as usize, old(context).within_impl_block())
                &&& opened_parameter_scope(old(context), final(context), impl_scope, parameters@, true)
                &&& other_scopes_kept(old(context), final(context), impl_scope)
                &&& impl_member_added(tree.all_scopes()[impl_scope], final(context).scope_tree().all_scopes()[impl_scope],
                    struct_name, name@, true)
                &&& final(context).within_impl_block()
            }),
    {
        match self.try_enter_method_statement(name, parameters, context) {
            Ok(entered) => entered,
            Err(_) => {
                proof {
                    assert(false);
                }
                (0, false)
            },
        }
    }
}

/// In a well-formed context the scope being read exists.
pub proof fn lemma_current_scope_exists(context: NameResolvingContext)
    requires
        context.wf(),
    ensures
        0 <= context.current_scope_index() < context.scope_tree().all_scopes().len(),
{
}

} // verus!
