use vstd::prelude::*;

use crate::parser::semantics::name_scoping::ScopeTree;
use crate::parser::semantics::traits::AstContext;
use crate::syntax::ast::AstNodeIndex;

verus! {

/// The pass that checks, for each name in use, that a scope declares it.
#[derive(Debug, Default)]
pub struct ScopeResolvingSemantics;

impl AstContext for ScopeResolvingSemantics {}

/// Why a name in use is refused.
#[derive(Debug, Clone, Copy, PartialEq, Eq, Structural)]
pub enum ScopeResolvingError {
    /// No scope was recorded for the node that uses the name.
    NotInNameTable,
    /// No scope from the node's outward declares the name.
    NotFoundInScope,
    /// The scope found declares the name, but not as a struct.
    NotAStruct,
}

/// The scope recorded for a node, if the node has a record.
pub open spec fn scope_of_node(scopes: ScopeTree, node: AstNodeIndex) -> Option<usize> {
    if node.0 < scopes.scope_id_by_node_index@.len() {
        Some(scopes.scope_id_by_node_index@[node.0 as int])
    } else {
        None
    }
}

/// Whether the name is declared in the node's scope or one that holds it.
pub open spec fn resolves(scopes: ScopeTree, scope: usize, name: Seq<char>) -> bool {
    scope < scopes.scopes@.len() && scopes.spec_find_scope_index(scope as int, name) is Some
}

/// The answer for a name in use at `node`: refused where the node has no
/// recorded scope, or where no scope from there outward declares the name.
pub open spec fn name_use_result(scopes: ScopeTree, node: AstNodeIndex, name: Seq<char>) -> Result<(), ScopeResolvingError> {
    match scope_of_node(scopes, node) {
        None => Err(ScopeResolvingError::NotInNameTable),
        Some(scope) => if resolves(scopes, scope, name) {
            Ok(())
        } else {
            Err(ScopeResolvingError::NotFoundInScope)
        },
    }
}

/// The declaration of the struct called `name` as seen from `node`: the
/// nearest scope from the node's outward that declares the name must
/// declare it as a struct.
pub open spec fn struct_declaration(scopes: ScopeTree, node: AstNodeIndex, name: Seq<char>) -> Result<AstNodeIndex, ScopeResolvingError> {
    match name_use_result(scopes, node, name) {
        Err(e) => Err(e),
        Ok(_) => {
            let found = scopes.scopes@[scopes.spec_find_scope_index(scope_of_node(scopes, node)->0 as int, name)->0];
            if found.structs@.dom().contains(name) {
                Ok(found.structs@[name])
            } else {
                Err(ScopeResolvingError::NotAStruct)
            }
        },
    }
}

impl ScopeResolvingSemantics {
    /// The scope recorded for a node, if any.
    pub fn get_node_scope_id(&self, scopes: &ScopeTree, node: AstNodeIndex) -> (r: Option<usize>)
        ensures
            r == scope_of_node(*scopes, node),
    {
        if node.0 < scopes.scope_id_by_node_index.len() {
            Some(scopes.scope_id_by_node_index[node.0])
        } else {
            None
        }
    }

    /// Checks that the name used at `node` is declared in the node's scope
    /// or one that holds it.
    fn check_name_in_scope(&self, scopes: &ScopeTree, node: AstNodeIndex, name: &str) -> (r: Result<(), ScopeResolvingError>)
        requires
            scopes.wf(),
        ensures
            r == name_use_result(*scopes, node, name@),
    {
        let scope_id = match self.get_node_scope_id(scopes, node) {
            Some(scope_id) => scope_id,
            None => return Err(ScopeResolvingError::NotInNameTable),
        };
        match scopes.find_from_scope(scope_id, name) {
            Some(_) => Ok(()),
            None => Err(ScopeResolvingError::NotFoundInScope),
        }
    }

    /// An identifier must be declared in its scope or one that holds it.
    pub fn visit_identifier(&self, scopes: &ScopeTree, node: AstNodeIndex, name: &str) -> (r: Result<(), ScopeResolvingError>)
        requires
            scopes.wf(),
        ensures
            r == name_use_result(*scopes, node, name@),
    {
        self.check_name_in_scope(scopes, node, name)
    }

    /// The type named in a cast, at the node of its annotation, must be
    /// declared in that node's scope or one that holds it.
    pub fn visit_cast(&self, scopes: &ScopeTree, target_type: AstNodeIndex, target_name: &str) -> (r: Result<(), ScopeResolvingError>)
        requires
            scopes.wf(),
        ensures
            r == name_use_result(*scopes, target_type, target_name@),
    {
        self.check_name_in_scope(scopes, target_type, target_name)
    }

    /// A struct initializer's struct must be declared, as a struct, in the
    /// initializer's scope or one that holds it; gives the declaration's
    /// node.
    pub fn visit_struct_initializer(&self, scopes: &ScopeTree, node: AstNodeIndex, struct_name: &str) -> (r: Result<AstNodeIndex, ScopeResolvingError>)
        requires
            scopes.wf(),
        ensures
            r == struct_declaration(*scopes, node, struct_name@),
    {
        let scope_id = match self.get_node_scope_id(scopes, node) {
            Some(scope_id) => scope_id,
            None => return Err(ScopeResolvingError::NotInNameTable),
        };
        let struct_scope = match scopes.find_from_scope(scope_id, struct_name) {
            Some((_, scope)) => scope,
            None => return Err(ScopeResolvingError::NotFoundInScope),
        };
        match struct_scope.structs.get(struct_name) {
            Some(id) => Ok(*id),
            None => Err(ScopeResolvingError::NotAStruct),
        }
    }
}

} // verus!
