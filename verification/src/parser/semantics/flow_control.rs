use vstd::prelude::*;

use crate::syntax::ast::AstNodeIndex;
use std::collections::HashMap;

verus! {

broadcast use vstd::std_specs::hash::group_hash_axioms;

/// The kind of block that the pass is in.
#[derive(Debug, Clone, Copy, PartialEq, Eq, Hash, Structural)]
pub enum BlockType {
    TopLevel,
    Function,
    Impl,
    Method,
    Loop,
    While,
    For,
}

impl Default for BlockType {
    fn default() -> (r: Self)
        ensures
            r == BlockType::TopLevel,
    {
        BlockType::TopLevel
    }
}

impl BlockType {
    /// Whether blocks of this kind are loops, in which `break` and
    /// `continue` may stand.
    pub open spec fn spec_is_loop(self) -> bool {
        self is Loop || self is While || self is For
    }

    /// Whether this is one of the loop kinds.
    pub fn is_loop(&self) -> (r: bool)
        ensures
            r == self.spec_is_loop(),
            r == loop_block_kinds().contains(*self),
    {
        match self {
            BlockType::Loop | BlockType::While | BlockType::For => true,
            _ => false,
        }
    }
}

/// The kinds of block that are loops: `loop`, `while` and `for`.
pub open spec fn loop_block_kinds() -> Seq<BlockType> {
    seq![BlockType::Loop, BlockType::While, BlockType::For]
}

/// A block is a loop, where `break` and `continue` may stand, exactly when
/// its kind is `loop`, `while` or `for`.
pub proof fn law_loops_are_loop_while_for(block_type: BlockType)
    ensures
        block_type.spec_is_loop() <==> loop_block_kinds().contains(block_type),
{
    if block_type.spec_is_loop() {
        let i: int = if block_type is Loop { 0 } else if block_type is While { 1 } else { 2 };
        assert(loop_block_kinds()[i] == block_type);
    }
}

/// What the flow-control pass knows at each point: the kinds of the blocks
/// around it, the closest function and impl block, and what it has found.
#[derive(Debug, Clone)]
pub struct FlowControlContext {
    pub temp_previous_block_type: BlockType,
    pub previous_block_type: BlockType,
    pub temp_current_block_type: BlockType,
    pub current_block_type: BlockType,
    pub impl_and_top_level_block_type: BlockType,
    pub function_scope_block_type: BlockType,
    pub closest_function_ast_node_id: Option<AstNodeIndex>,
    pub closest_impl_block_id: Option<AstNodeIndex>,
    /// For each `self` expression, the impl block it belongs to.
    pub self_to_impl_block: HashMap<usize, usize>,
    /// For each function, its deferred calls, the latest first.
    pub function_deferred_calls: HashMap<usize, Vec<usize>>,
    /// For each function, its return statements in order.
    pub function_return_statements: HashMap<usize, Vec<usize>>,
    /// For each item of an impl block, that block.
    pub node_to_impl_block: HashMap<usize, usize>,
}

impl Default for FlowControlContext {
    fn default() -> (r: Self)
        ensures
            r.temp_previous_block_type == BlockType::TopLevel,
            r.previous_block_type == BlockType::TopLevel,
            r.temp_current_block_type == BlockType::TopLevel,
            r.current_block_type == BlockType::TopLevel,
            r.impl_and_top_level_block_type == BlockType::TopLevel,
            r.function_scope_block_type == BlockType::TopLevel,
            r.closest_function_ast_node_id is None,
            r.closest_impl_block_id is None,
            r.self_to_impl_block@ == Map::<usize, usize>::empty(),
            r.function_deferred_calls@ == Map::<usize, Vec<usize>>::empty(),
            r.function_return_statements@ == Map::<usize, Vec<usize>>::empty(),
            r.node_to_impl_block@ == Map::<usize, usize>::empty(),
    {
        FlowControlContext {
            temp_previous_block_type: BlockType::TopLevel,
            previous_block_type: BlockType::TopLevel,
            temp_current_block_type: BlockType::TopLevel,
            current_block_type: BlockType::TopLevel,
            impl_and_top_level_block_type: BlockType::TopLevel,
            function_scope_block_type: BlockType::TopLevel,
            closest_function_ast_node_id: None,
            closest_impl_block_id: None,
            self_to_impl_block: HashMap::new(),
            function_deferred_calls: HashMap::new(),
            function_return_statements: HashMap::new(),
            node_to_impl_block: HashMap::new(),
        }
    }
}

/// The context after entering a block of kind `block_type` from `c`: the
/// current kind becomes the previous one, and both are kept for
/// `restore_block_type`.
pub open spec fn after_set_block_type(c: FlowControlContext, block_type: BlockType) -> FlowControlContext {
    FlowControlContext {
        temp_previous_block_type: c.previous_block_type,
        previous_block_type: c.current_block_type,
        temp_current_block_type: c.current_block_type,
        current_block_type: block_type,
        ..c
    }
}

/// The context after leaving a block: the kept kinds come back.
pub open spec fn after_restore_block_type(c: FlowControlContext) -> FlowControlContext {
    FlowControlContext {
        previous_block_type: c.temp_previous_block_type,
        current_block_type: c.temp_current_block_type,
        ..c
    }
}

impl FlowControlContext {
    /// Enters a block of kind `block_type`.
    pub fn set_block_type(&mut self, block_type: BlockType)
        ensures
            *final(self) == after_set_block_type(*old(self), block_type),
    {
        self.temp_previous_block_type = self.previous_block_type;
        self.previous_block_type = self.current_block_type;
        self.temp_current_block_type = self.current_block_type;
        self.current_block_type = block_type;
    }

    /// Leaves the block entered last.
    pub fn restore_block_type(&mut self)
        ensures
            *final(self) == after_restore_block_type(*old(self)),
    {
        self.previous_block_type = self.temp_previous_block_type;
        self.current_block_type = self.temp_current_block_type;
    }
}

/// Leaving a block just entered gives back the kinds of block that were
/// current and previous before it, and changes nothing else but what was
/// kept for leaving.
pub proof fn lemma_restore_undoes_set(c: FlowControlContext, block_type: BlockType)
    ensures
        after_restore_block_type(after_set_block_type(c, block_type)).previous_block_type == c.previous_block_type,
        after_restore_block_type(after_set_block_type(c, block_type)).current_block_type == c.current_block_type,
        after_restore_block_type(after_set_block_type(c, block_type)) == (FlowControlContext {
            temp_previous_block_type: c.previous_block_type,
            temp_current_block_type: c.current_block_type,
            ..c
        }),
{
}

/// The pass that checks that `break`, `continue`, `return`, `defer` and
/// `self` stand where they may, and records what they belong to.
#[derive(Debug, Default)]
pub struct FlowControlSemantics;

impl FlowControlSemantics {
    /// Whether a `break` or `continue` would stand inside a loop.
    pub fn check_if_within_loops(&self, context: &FlowControlContext) -> (r: bool)
        ensures
            r == context.current_block_type.spec_is_loop(),
            r == loop_block_kinds().contains(context.current_block_type),
    {
        context.current_block_type.is_loop()
    }

    /// Whether a `return` or `defer` would stand inside a function or a
    /// method.
    pub fn check_if_within_function(&self, context: &FlowControlContext) -> (r: bool)
        ensures
            r == (context.function_scope_block_type is Function || context.function_scope_block_type is Method),
    {
        match context.function_scope_block_type {
            BlockType::Function | BlockType::Method => true,
            _ => false,
        }
    }

    /// Records the deferred call as the latest of the closest function.
    pub fn pin_defer_call_to_closest_function(&self, defer_statement: AstNodeIndex, context: &mut FlowControlContext)
        requires
            old(context).closest_function_ast_node_id is Some,
        ensures
            ({
                let function_id = (old(context).closest_function_ast_node_id->0).0;
                let before = old(context).function_deferred_calls@;
                let calls = if before.contains_key(function_id) { before[function_id]@ } else { Seq::empty() };
                &&& final(context).function_deferred_calls@.dom() == before.dom().insert(function_id)
                &&& final(context).function_deferred_calls@[function_id]@ == seq![defer_statement.0] + calls
                &&& forall|k: usize| k != function_id && before.contains_key(k)
                    ==> #[trigger] final(context).function_deferred_calls@[k] == before[k]
            }),
            final(context).self_to_impl_block == old(context).self_to_impl_block,
            final(context).node_to_impl_block == old(context).node_to_impl_block,
            final(context).function_return_statements == old(context).function_return_statements,
            final(context).current_block_type == old(context).current_block_type,
    {
        let function_id = context.closest_function_ast_node_id.unwrap().0;
        let mut calls: Vec<usize> = match context.function_deferred_calls.get(&function_id) {
            Some(calls) => calls.clone(),
            None => Vec::new(),
        };
        calls.insert(0, defer_statement.0);
        context.function_deferred_calls.insert(function_id, calls);
    }

    /// Records the return statement as the latest of the closest function.
    pub fn pin_return_to_closest_function(&self, return_statement: AstNodeIndex, context: &mut FlowControlContext)
        requires
            old(context).closest_function_ast_node_id is Some,
        ensures
            ({
                let function_id = (old(context).closest_function_ast_node_id->0).0;
                let before = old(context).function_return_statements@;
                let statements = if before.contains_key(function_id) { before[function_id]@ } else { Seq::empty() };
                &&& final(context).function_return_statements@.dom() == before.dom().insert(function_id)
                &&& final(context).function_return_statements@[function_id]@ == statements.push(return_statement.0)
                &&& forall|k: usize| k != function_id && before.contains_key(k)
                    ==> #[trigger] final(context).function_return_statements@[k] == before[k]
            }),
            final(context).self_to_impl_block == old(context).self_to_impl_block,
            final(context).node_to_impl_block == old(context).node_to_impl_block,
            final(context).function_deferred_calls == old(context).function_deferred_calls,
            final(context).current_block_type == old(context).current_block_type,
    {
        let function_id = context.closest_function_ast_node_id.unwrap().0;
        let mut statements: Vec<usize> = match context.function_return_statements.get(&function_id) {
            Some(statements) => statements.clone(),
            None => Vec::new(),
        };
        statements.push(return_statement.0);
        context.function_return_statements.insert(function_id, statements);
    }

    /// Records that the node belongs to the closest impl block.
    pub fn pin_to_impl_block(&self, node: AstNodeIndex, context: &mut FlowControlContext)
        requires
            old(context).closest_impl_block_id is Some,
            !old(context).self_to_impl_block@.contains_key((old(context).closest_impl_block_id->0).0),
        ensures
            final(context).node_to_impl_block@ == old(context).node_to_impl_block@.insert(
                node.0,
                (old(context).closest_impl_block_id->0).0,
            ),
            *final(context) == (FlowControlContext { node_to_impl_block: final(context).node_to_impl_block, ..*old(context) }),
    {
        let impl_block_id = context.closest_impl_block_id.unwrap().0;
        context.node_to_impl_block.insert(node.0, impl_block_id);
    }

    /// Records that the node belongs to the closest impl block, if there is
    /// one.
    pub fn try_pin_to_impl_block(&self, node: AstNodeIndex, context: &mut FlowControlContext)
        requires
            old(context).closest_impl_block_id matches Some(id) ==> !old(context).self_to_impl_block@.contains_key(id.0),
        ensures
            final(context).node_to_impl_block@ == (match old(context).closest_impl_block_id {
                Some(id) => old(context).node_to_impl_block@.insert(node.0, id.0),
                None => old(context).node_to_impl_block@,
            }),
            *final(context) == (FlowControlContext { node_to_impl_block: final(context).node_to_impl_block, ..*old(context) }),
    {
        match context.closest_impl_block_id {
            Some(impl_block_id) => {
                context.node_to_impl_block.insert(node.0, impl_block_id.0);
            },
            None => {},
        }
    }

    /// Records that the `self` expression, and the node it is, belong to
    /// the closest impl block.
    pub fn pin_self_to_impl_block(&self, self_expression: AstNodeIndex, context: &mut FlowControlContext)
        requires
            old(context).closest_impl_block_id is Some,
            ({
                let impl_id = (old(context).closest_impl_block_id->0).0;
                !old(context).self_to_impl_block@.insert(self_expression.0, impl_id).contains_key(impl_id)
            }),
        ensures
            ({
                let impl_id = (old(context).closest_impl_block_id->0).0;
                &&& final(context).self_to_impl_block@ == old(context).self_to_impl_block@.insert(self_expression.0, impl_id)
                &&& final(context).node_to_impl_block@ == old(context).node_to_impl_block@.insert(self_expression.0, impl_id)
            }),
            final(context).function_deferred_calls == old(context).function_deferred_calls,
            final(context).function_return_statements == old(context).function_return_statements,
    {
        let impl_block_id = context.closest_impl_block_id.unwrap().0;
        context.self_to_impl_block.insert(self_expression.0, impl_block_id);
        self.pin_to_impl_block(self_expression, context);
    }
}


/// Why the flow-control pass refuses a statement.
#[derive(Debug, Clone, Copy, PartialEq, Eq, Structural)]
pub enum FlowControlError {
    /// `break` outside of a loop.
    BreakOutsideLoop,
    /// `continue` outside of a loop.
    ContinueOutsideLoop,
    /// `return` outside of a function or method.
    ReturnOutsideFunction,
    /// `defer` outside of a function or method.
    DeferOutsideFunction,
    /// `self` outside of a method.
    SelfOutsideMethod,
    /// A statement at the top of an `impl` block other than a static or a const.
    UnexpectedImplStatement,
}

/// What kind of statement stands at the top of an `impl` block.
#[derive(Debug, Clone, Copy, PartialEq, Eq, Structural)]
pub enum TopLevelKind {
    Static,
    Const,
    Other,
}

/// The context after entering a block of kind `block_type` for as long as
/// the block lasts: the current kind becomes the previous one.
pub open spec fn entered_block(c: FlowControlContext, block_type: BlockType) -> FlowControlContext {
    FlowControlContext { previous_block_type: c.current_block_type, current_block_type: block_type, ..c }
}

impl FlowControlContext {
    /// Enters a block of kind `block_type`; gives back the kinds to restore
    /// when leaving it.
    pub fn enter_scope_block_type(&mut self, block_type: BlockType) -> (saved: (BlockType, BlockType))
        ensures
            saved == (old(self).previous_block_type, old(self).current_block_type),
            *final(self) == entered_block(*old(self), block_type),
    {
        let saved = (self.previous_block_type, self.current_block_type);
        self.previous_block_type = self.current_block_type;
        self.current_block_type = block_type;
        saved
    }

    /// Leaves a block: the kinds `saved` on entering come back.
    pub fn leave_scope_block_type(&mut self, saved: (BlockType, BlockType))
        ensures
            *final(self) == (FlowControlContext { previous_block_type: saved.0, current_block_type: saved.1, ..*old(self) }),
    {
        self.previous_block_type = saved.0;
        self.current_block_type = saved.1;
    }
}

/// Leaving a block entered with `enter_scope_block_type` gives back the
/// context as it was before entering, whatever kind the block had.
pub proof fn lemma_leave_undoes_enter(c: FlowControlContext, block_type: BlockType)
    ensures
        (FlowControlContext {
            previous_block_type: c.previous_block_type,
            current_block_type: c.current_block_type,
            ..entered_block(c, block_type)
        }) == c,
{
}

/// `break` and `continue` are accepted exactly where the innermost block is
/// a `loop`, `while` or `for`; right inside the body of a function or a
/// method they are refused.
pub proof fn law_break_and_continue_only_in_loops(c: FlowControlContext, kind: BlockType)
    requires
        kind is Function || kind is Method,
    ensures
        c.current_block_type.spec_is_loop() <==> loop_block_kinds().contains(c.current_block_type),
        !entered_block(FlowControlContext { function_scope_block_type: kind, ..c }, kind).current_block_type.spec_is_loop(),
        !loop_block_kinds().contains(kind),
{
    law_loops_are_loop_while_for(c.current_block_type);
    law_loops_are_loop_while_for(kind);
}

/// Whether every statement at the top of an `impl` block is a static or a const.
pub open spec fn only_declarations(kinds: Seq<TopLevelKind>) -> bool {
    forall|i: int| 0 <= i < kinds.len() ==> !(#[trigger] kinds[i] is Other)
}

impl FlowControlSemantics {
    /// `break`: allowed inside a loop only.
    pub fn visit_break_statement(&self, context: &FlowControlContext) -> (r: Result<(), FlowControlError>)
        ensures
            r == (if context.current_block_type.spec_is_loop() { Ok(()) } else { Err(FlowControlError::BreakOutsideLoop) }),
            r is Ok <==> loop_block_kinds().contains(context.current_block_type),
    {
        if self.check_if_within_loops(context) {
            Ok(())
        } else {
            Err(FlowControlError::BreakOutsideLoop)
        }
    }

    /// `continue`: allowed inside a loop only.
    pub fn visit_continue_statement(&self, context: &FlowControlContext) -> (r: Result<(), FlowControlError>)
        ensures
            r == (if context.current_block_type.spec_is_loop() { Ok(()) } else { Err(FlowControlError::ContinueOutsideLoop) }),
            r is Ok <==> loop_block_kinds().contains(context.current_block_type),
    {
        if self.check_if_within_loops(context) {
            Ok(())
        } else {
            Err(FlowControlError::ContinueOutsideLoop)
        }
    }

    /// Entering a `while` statement's body.
    pub fn enter_while_statement(&self, context: &mut FlowControlContext) -> (saved: (BlockType, BlockType))
        ensures
            saved == (old(context).previous_block_type, old(context).current_block_type),
            *final(context) == entered_block(*old(context), BlockType::While),
    {
        context.enter_scope_block_type(BlockType::While)
    }

    /// Entering a function declaration: it becomes the closest function;
    /// gives back the one that was.
    pub fn enter_fn_statement(&self, fn_node: AstNodeIndex, context: &mut FlowControlContext) -> (previous: Option<AstNodeIndex>)
        ensures
            previous == old(context).closest_function_ast_node_id,
            *final(context) == (FlowControlContext { closest_function_ast_node_id: Some(fn_node), ..*old(context) }),
    {
        let previous = context.closest_function_ast_node_id;
        context.closest_function_ast_node_id = Some(fn_node);
        previous
    }

    /// Leaving a function declaration: it joins the closest `impl` block, if
    /// any, and the closest function is `previous` again.
    pub fn leave_fn_statement(&self, fn_node: AstNodeIndex, previous: Option<AstNodeIndex>, context: &mut FlowControlContext)
        requires
            old(context).closest_impl_block_id matches Some(id) ==> !old(context).self_to_impl_block@.contains_key(id.0),
        ensures
            final(context).closest_function_ast_node_id == previous,
            final(context).node_to_impl_block@ == (match old(context).closest_impl_block_id {
                Some(id) => old(context).node_to_impl_block@.insert(fn_node.0, id.0),
                None => old(context).node_to_impl_block@,
            }),
            final(context).self_to_impl_block == old(context).self_to_impl_block,
            final(context).function_deferred_calls == old(context).function_deferred_calls,
            final(context).function_return_statements == old(context).function_return_statements,
            final(context).current_block_type == old(context).current_block_type,
            final(context).previous_block_type == old(context).previous_block_type,
            final(context).function_scope_block_type == old(context).function_scope_block_type,
            final(context).closest_impl_block_id == old(context).closest_impl_block_id,
    {
        self.try_pin_to_impl_block(fn_node, context);
        context.closest_function_ast_node_id = previous;
    }

    /// Entering a function's body (`Function`) or a method's (`Method`):
    /// gives back the function kind and the block kinds to restore.
    pub fn enter_function_body(&self, kind: BlockType, context: &mut FlowControlContext) -> (saved: (BlockType, (BlockType, BlockType)))
        requires
            kind is Function || kind is Method,
        ensures
            saved == (old(context).function_scope_block_type, (old(context).previous_block_type, old(context).current_block_type)),
            *final(context) == entered_block(FlowControlContext { function_scope_block_type: kind, ..*old(context) }, kind),
    {
        let function_kind = context.function_scope_block_type;
        context.function_scope_block_type = kind;
        let blocks = context.enter_scope_block_type(kind);
        (function_kind, blocks)
    }

    /// Leaving a function's or method's body: the kinds `saved` on entering
    /// come back.
    pub fn leave_function_body(&self, saved: (BlockType, (BlockType, BlockType)), context: &mut FlowControlContext)
        ensures
            *final(context) == (FlowControlContext {
                function_scope_block_type: saved.0,
                previous_block_type: saved.1.0,
                current_block_type: saved.1.1,
                ..*old(context)
            }),
    {
        context.leave_scope_block_type(saved.1);
        context.function_scope_block_type = saved.0;
    }

    /// `return`: allowed inside a function or method only, where it joins
    /// the closest function's return statements.
    pub fn visit_return_statement(&self, return_node: AstNodeIndex, context: &mut FlowControlContext) -> (r: Result<(), FlowControlError>)
        requires
            (old(context).function_scope_block_type is Function || old(context).function_scope_block_type is Method)
                ==> old(context).closest_function_ast_node_id is Some,
        ensures
            !(old(context).function_scope_block_type is Function || old(context).function_scope_block_type is Method) ==> {
                &&& r == Err::<(), FlowControlError>(FlowControlError::ReturnOutsideFunction)
                &&& *final(context) == *old(context)
            },
            (old(context).function_scope_block_type is Function || old(context).function_scope_block_type is Method) ==> {
                let function_id = (old(context).closest_function_ast_node_id->0).0;
                let before = old(context).function_return_statements@;
                let statements = if before.contains_key(function_id) { before[function_id]@ } else { Seq::empty() };
                &&& r is Ok
                &&& final(context).function_return_statements@.dom() == before.dom().insert(function_id)
                &&& final(context).function_return_statements@[function_id]@ == statements.push(return_node.0)
                &&& forall|k: usize| k != function_id && before.contains_key(k)
                    ==> #[trigger] final(context).function_return_statements@[k] == before[k]
                &&& final(context).function_deferred_calls == old(context).function_deferred_calls
                &&& final(context).node_to_impl_block == old(context).node_to_impl_block
            },
    {
        if !self.check_if_within_function(context) {
            return Err(FlowControlError::ReturnOutsideFunction);
        }
        self.pin_return_to_closest_function(return_node, context);
        Ok(())
    }

    /// `defer`: allowed inside a function or method only, where it joins the
    /// closest function's deferred calls, the latest first.
    pub fn visit_defer_statement(&self, defer_node: AstNodeIndex, context: &mut FlowControlContext) -> (r: Result<(), FlowControlError>)
        requires
            (old(context).function_scope_block_type is Function || old(context).function_scope_block_type is Method)
                ==> old(context).closest_function_ast_node_id is Some,
        ensures
            !(old(context).function_scope_block_type is Function || old(context).function_scope_block_type is Method) ==> {
                &&& r == Err::<(), FlowControlError>(FlowControlError::DeferOutsideFunction)
                &&& *final(context) == *old(context)
            },
            (old(context).function_scope_block_type is Function || old(context).function_scope_block_type is Method) ==> {
                let function_id = (old(context).closest_function_ast_node_id->0).0;
                let before = old(context).function_deferred_calls@;
                let calls = if before.contains_key(function_id) { before[function_id]@ } else { Seq::empty() };
                &&& r is Ok
                &&& final(context).function_deferred_calls@.dom() == before.dom().insert(function_id)
                &&& final(context).function_deferred_calls@[function_id]@ == seq![defer_node.0] + calls
                &&& forall|k: usize| k != function_id && before.contains_key(k)
                    ==> #[trigger] final(context).function_deferred_calls@[k] == before[k]
                &&& final(context).function_return_statements == old(context).function_return_statements
                &&& final(context).node_to_impl_block == old(context).node_to_impl_block
            },
    {
        if !self.check_if_within_function(context) {
            return Err(FlowControlError::DeferOutsideFunction);
        }
        self.pin_defer_call_to_closest_function(defer_node, context);
        Ok(())
    }

    /// `self`: allowed inside a method only, where it joins the closest
    /// `impl` block.
    pub fn visit_self(&self, self_node: AstNodeIndex, context: &mut FlowControlContext) -> (r: Result<(), FlowControlError>)
        requires
            old(context).function_scope_block_type is Method ==> {
                &&& old(context).closest_impl_block_id is Some
                &&& !old(context).self_to_impl_block@.insert(self_node.0, (old(context).closest_impl_block_id->0).0)
                    .contains_key((old(context).closest_impl_block_id->0).0)
            },
        ensures
            !(old(context).function_scope_block_type is Method) ==> {
                &&& r == Err::<(), FlowControlError>(FlowControlError::SelfOutsideMethod)
                &&& *final(context) == *old(context)
            },
            old(context).function_scope_block_type is Method ==> {
                let impl_id = (old(context).closest_impl_block_id->0).0;
                &&& r is Ok
                &&& final(context).self_to_impl_block@ == old(context).self_to_impl_block@.insert(self_node.0, impl_id)
                &&& final(context).node_to_impl_block@ == old(context).node_to_impl_block@.insert(self_node.0, impl_id)
                &&& final(context).function_deferred_calls == old(context).function_deferred_calls
                &&& final(context).function_return_statements == old(context).function_return_statements
            },
    {
        match context.function_scope_block_type {
            BlockType::Method => {},
            _ => {
                return Err(FlowControlError::SelfOutsideMethod);
            },
        }
        self.pin_self_to_impl_block(self_node, context);
        Ok(())
    }

    /// A `static` or `const` declaration: it joins the closest `impl` block,
    /// if any.
    pub fn visit_static_or_const_statement(&self, node: AstNodeIndex, context: &mut FlowControlContext)
        requires
            old(context).closest_impl_block_id matches Some(id) ==> !old(context).self_to_impl_block@.contains_key(id.0),
        ensures
            final(context).node_to_impl_block@ == (match old(context).closest_impl_block_id {
                Some(id) => old(context).node_to_impl_block@.insert(node.0, id.0),
                None => old(context).node_to_impl_block@,
            }),
            final(context).self_to_impl_block == old(context).self_to_impl_block,
            final(context).function_deferred_calls == old(context).function_deferred_calls,
            final(context).function_return_statements == old(context).function_return_statements,
    {
        self.try_pin_to_impl_block(node, context);
    }

    /// Entering `impl`: refuses blocks whose top-level statements are not
    /// all statics and consts; otherwise the block becomes the closest
    /// `impl` block. Gives back what to restore when leaving it.
    pub fn enter_impl_statement(
        &self,
        impl_node: AstNodeIndex,
        top_level_statements: &Vec<TopLevelKind>,
        context: &mut FlowControlContext,
    ) -> (r: Result<(BlockType, Option<AstNodeIndex>, (BlockType, BlockType)), FlowControlError>)
        ensures
            !only_declarations(top_level_statements@) ==> {
                &&& r == Err::<(BlockType, Option<AstNodeIndex>, (BlockType, BlockType)), FlowControlError>(FlowControlError::UnexpectedImplStatement)
                &&& *final(context) == *old(context)
            },
            only_declarations(top_level_statements@) ==> {
                &&& r == Ok::<(BlockType, Option<AstNodeIndex>, (BlockType, BlockType)), FlowControlError>((
                    old(context).impl_and_top_level_block_type,
                    old(context).closest_impl_block_id,
                    (old(context).previous_block_type, old(context).current_block_type),
                ))
                &&& *final(context) == entered_block(FlowControlContext {
                    impl_and_top_level_block_type: BlockType::Impl,
                    closest_impl_block_id: Some(impl_node),
                    ..*old(context)
                }, BlockType::Impl)
            },
    {
        let mut i: usize = 0;
        while i < top_level_statements.len()
            invariant
                i <= top_level_statements@.len(),
                forall|j: int| 0 <= j < i ==> !(#[trigger] top_level_statements@[j] is Other),
            decreases top_level_statements@.len() - i,
        {
            match top_level_statements[i] {
                TopLevelKind::Other => {
                    return Err(FlowControlError::UnexpectedImplStatement);
                },
                _ => {},
            }
            i = i + 1;
        }
        let previous_kind = context.impl_and_top_level_block_type;
        context.impl_and_top_level_block_type = BlockType::Impl;
        let previous_block = context.closest_impl_block_id;
        context.closest_impl_block_id = Some(impl_node);
        let blocks = context.enter_scope_block_type(BlockType::Impl);
        Ok((previous_kind, previous_block, blocks))
    }

    /// Leaving `impl`: what `enter_impl_statement` gave back comes back.
    pub fn leave_impl_statement(&self, saved: (BlockType, Option<AstNodeIndex>, (BlockType, BlockType)), context: &mut FlowControlContext)
        ensures
            *final(context) == (FlowControlContext {
                impl_and_top_level_block_type: saved.0,
                closest_impl_block_id: saved.1,
                previous_block_type: saved.2.0,
                current_block_type: saved.2.1,
                ..*old(context)
            }),
    {
        context.leave_scope_block_type(saved.2);
        context.closest_impl_block_id = saved.1;
        context.impl_and_top_level_block_type = saved.0;
    }
}

} // verus!
