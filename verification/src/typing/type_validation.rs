use vstd::prelude::*;

use crate::parser::semantics::name_scoping::ScopeTree;
use crate::parser::semantics::scope_resolving::{struct_declaration, ScopeResolvingSemantics};
use crate::parser::semantics::traits::AstContext;
use crate::utils::name_map::str_eq;
use crate::syntax::ast::AstNodeIndex;
use crate::syntax::ast::PlainLiteral;
use crate::syntax::ast::TypeKind;
use crate::syntax::tokens::TokenType;
use crate::typing::literal_typing::{
    lemma_same_type_symmetric, lemma_same_types_symmetric, lemma_same_fields_symmetric, lemma_same_type_transitive, lemma_same_types_transitive, lemma_same_fields_transitive, lemma_same_value_type_transitive,
    lemma_same_type_reflexive, match_binary_op, match_inplace_assignment_op, match_unary_op, same_type, same_value_type,
    same_result, spec_inner_type_eq, spec_match_binary_op, spec_match_inplace_assignment_op, spec_match_unary_op,
    spec_verify_cast_operator, spec_simple_type, cast_sizes_known, verify_cast_operator, BuiltinType, InnerTypeEq, PointerType, StructType, Type,
};
use std::collections::HashMap;

verus! {

broadcast use vstd::std_specs::hash::group_hash_axioms;

/// The types found so far for the nodes of the syntax tree, by the number of
/// each node.
#[derive(Debug, Clone)]
pub struct TypeValidationContext {
    pub evaluated_types: HashMap<usize, Type>,
}

impl TypeValidationContext {
    /// A context that knows the type of no node.
    pub fn new() -> (r: Self)
        ensures
            r.evaluated_types@ == Map::<usize, Type>::empty(),
    {
        TypeValidationContext { evaluated_types: HashMap::new() }
    }

    /// Whether the two nodes were given the same type.
    pub fn check_nodes_type_equality(&self, left: &AstNodeIndex, right: &AstNodeIndex) -> (r: bool)
        requires
            self.evaluated_types@.contains_key(left.0),
            self.evaluated_types@.contains_key(right.0),
        ensures
            r == same_value_type(self.evaluated_types@[left.0], self.evaluated_types@[right.0]),
    {
        let left_type = self.evaluated_types.get(&left.0).unwrap();
        let right_type = self.evaluated_types.get(&right.0).unwrap();
        *left_type == *right_type
    }

    /// The type given to the node.
    pub fn get_node_type(&self, node: AstNodeIndex) -> (r: &Type)
        requires
            self.evaluated_types@.contains_key(node.0),
        ensures
            *r == self.evaluated_types@[node.0],
    {
        self.evaluated_types.get(&node.0).unwrap()
    }

    /// Gives the node a type, in place of any it had.
    pub fn set_node_type(&mut self, node: AstNodeIndex, node_type: Type)
        ensures
            final(self).evaluated_types@ == old(self).evaluated_types@.insert(node.0, node_type),
    {
        self.evaluated_types.insert(node.0, node_type);
    }
}

/// Once a node is given a type, reading the node's type gives that type
/// back, and the types of the other nodes are as they were.
pub proof fn lemma_read_after_set(
    before: Map<usize, Type>,
    after: Map<usize, Type>,
    node: AstNodeIndex,
    node_type: Type,
    other: AstNodeIndex,
)
    requires
        after == before.insert(node.0, node_type),
    ensures
        after.contains_key(node.0),
        after[node.0] == node_type,
        other.0 != node.0 ==> after.contains_key(other.0) == before.contains_key(other.0),
        other.0 != node.0 && before.contains_key(other.0) ==> after[other.0] == before[other.0],
{
}

impl Default for TypeValidationContext {
    fn default() -> (r: Self)
        ensures
            r.evaluated_types@ == Map::<usize, Type>::empty(),
    {
        Self::new()
    }
}

impl AstContext for TypeValidationContext {}

/// The pass that checks the types of expressions and statements.
#[derive(Debug, Default)]
pub struct TypeValidationSemantics;


/// Why the typing pass refuses an expression or a statement.
#[derive(Debug, Clone, Copy, PartialEq, Eq, Structural)]
pub enum TypeValidationError {
    /// A unary operator does not apply to its operand's type.
    UnaryOperatorMismatch,
    /// A binary operator does not apply to its operands' types.
    BinaryOperatorMismatch,
    /// An assignment operator such as `+=` does not apply to its operands' types.
    InplaceAssignmentMismatch,
    /// The assigned value's type does not agree with the target's.
    AssignmentMismatch,
    /// The cast is not allowed.
    InvalidCast,
    /// The initializer's type does not agree with the annotation.
    LetTypeMismatch,
    /// A `let` with neither an annotation nor an initializer.
    LetWithoutTypeOrInitializer,
    /// The target of an assignment is not a place.
    NotAPlaceExpression,
    /// The target of an assignment may not be changed.
    AssignmentToImmutable,
    /// `.` applied to a value that is not a struct, or `->` to a pointer to one.
    NotAStruct,
    /// `->` applied to a value that is not a pointer.
    NotAPointer,
    /// The struct has no field of that name.
    UnknownField,
    /// A call of a value that is not a function.
    NotCallable,
    /// A call with another number of arguments than the function takes.
    ArgumentCountMismatch,
    /// A call with an argument of another type than the function takes.
    ArgumentTypeMismatch,
    /// A field initializer whose type does not agree with the field's.
    InitializerTypeMismatch,
    /// A type annotation names neither a basic type nor a struct.
    UnknownType,
}

/// `after` gives `node` a type that is the same as `t`, and keeps the types
/// of the other nodes.
pub open spec fn typed_as(before: Map<usize, Type>, after: Map<usize, Type>, node: AstNodeIndex, t: Type) -> bool {
    &&& after.dom() == before.dom().insert(node.0)
    &&& same_value_type(after[node.0], t)
    &&& forall|k: usize| k != node.0 && #[trigger] before.contains_key(k) ==> after[k] == before[k]
}

/// The type of the last field called `name`, if there is one.
pub open spec fn field_type_of(fields: Seq<(String, Type)>, name: Seq<char>) -> Option<Type>
    decreases fields.len(),
{
    if fields.len() == 0 {
        None
    } else if fields.last().0@ == name {
        Some(fields.last().1)
    } else {
        field_type_of(fields.drop_last(), name)
    }
}

/// The type of a literal's value.
pub open spec fn plain_literal_type(literal: PlainLiteral) -> BuiltinType {
    match literal {
        PlainLiteral::U8(_) => BuiltinType::U8,
        PlainLiteral::U16(_) => BuiltinType::U16,
        PlainLiteral::U32(_) => BuiltinType::U32,
        PlainLiteral::U64(_) => BuiltinType::U64,
        PlainLiteral::I8(_) => BuiltinType::I8,
        PlainLiteral::I16(_) => BuiltinType::I16,
        PlainLiteral::I32(_) => BuiltinType::I32,
        PlainLiteral::I64(_) => BuiltinType::I64,
        PlainLiteral::Bool(_) => BuiltinType::Bool,
        PlainLiteral::Char(_) => BuiltinType::Char,
        PlainLiteral::String(_) => BuiltinType::String,
    }
}

/// The type of the last field called `name`.
fn find_field_type<'a>(fields: &'a Vec<(String, Type)>, name: &str) -> (r: Option<&'a Type>)
    ensures
        match field_type_of(fields@, name@) {
            Some(t) => r == Some(&t),
            None => r is None,
        },
{
    let mut i = fields.len();
    proof {
        assert(fields@.take(i as int) == fields@);
    }
    while i > 0
        invariant
            i <= fields@.len(),
            field_type_of(fields@, name@) == field_type_of(fields@.take(i as int), name@),
        decreases i,
    {
        proof {
            assert(fields@.take(i as int).drop_last() == fields@.take(i - 1));
            assert(fields@.take(i as int).last() == fields@[i - 1]);
        }
        if str_eq(fields[i - 1].0.as_str(), name) {
            return Some(&fields[i - 1].1);
        }
        i = i - 1;
    }
    proof {
        assert(fields@.take(0) == Seq::<(String, Type)>::empty());
    }
    None
}

impl TypeValidationSemantics {
    /// A unary operator's result type, from its operand's.
    pub fn visit_unary(&self, node: AstNodeIndex, operator: TokenType, operand: AstNodeIndex, context: &mut TypeValidationContext) -> (r: Result<(), TypeValidationError>)
        requires
            old(context).evaluated_types@.contains_key(operand.0),
        ensures
            match spec_match_unary_op(operator, old(context).evaluated_types@[operand.0]) {
                None => r == Err::<(), TypeValidationError>(TypeValidationError::UnaryOperatorMismatch)
                    && final(context).evaluated_types@ == old(context).evaluated_types@,
                Some(t) => r is Ok && typed_as(old(context).evaluated_types@, final(context).evaluated_types@, node, t),
            },
    {
        let operand_type = context.get_node_type(operand);
        match match_unary_op(operator, operand_type) {
            None => Err(TypeValidationError::UnaryOperatorMismatch),
            Some(t) => {
                context.set_node_type(node, t);
                Ok(())
            },
        }
    }

    /// A binary operator's result type, from its operands'.
    pub fn visit_binary(
        &self,
        node: AstNodeIndex,
        operator: TokenType,
        left: AstNodeIndex,
        right: AstNodeIndex,
        context: &mut TypeValidationContext,
    ) -> (r: Result<(), TypeValidationError>)
        requires
            old(context).evaluated_types@.contains_key(left.0),
            old(context).evaluated_types@.contains_key(right.0),
        ensures
            match spec_match_binary_op(operator, old(context).evaluated_types@[left.0], old(context).evaluated_types@[right.0]) {
                None => r == Err::<(), TypeValidationError>(TypeValidationError::BinaryOperatorMismatch)
                    && final(context).evaluated_types@ == old(context).evaluated_types@,
                Some(t) => r is Ok && typed_as(old(context).evaluated_types@, final(context).evaluated_types@, node, t),
            },
    {
        let left_type = context.get_node_type(left);
        let right_type = context.get_node_type(right);
        match match_binary_op(operator, left_type, right_type) {
            None => Err(TypeValidationError::BinaryOperatorMismatch),
            Some(t) => {
                context.set_node_type(node, t);
                Ok(())
            },
        }
    }

    /// The target of an assignment must be a place (a variable, a field, an
    /// element or a dereference) whose type may be changed.
    pub fn check_assignment_is_place_expr(&self, lhs: AstNodeIndex, lhs_is_place: bool, context: &mut TypeValidationContext) -> (r: Result<(), TypeValidationError>)
        requires
            lhs_is_place ==> old(context).evaluated_types@.contains_key(lhs.0),
        ensures
            !lhs_is_place ==> r == Err::<(), TypeValidationError>(TypeValidationError::NotAPlaceExpression),
            lhs_is_place && !old(context).evaluated_types@[lhs.0].mutable ==> r == Err::<(), TypeValidationError>(TypeValidationError::AssignmentToImmutable),
            lhs_is_place && old(context).evaluated_types@[lhs.0].mutable ==> r is Ok,
            r is Err ==> final(context).evaluated_types@ == old(context).evaluated_types@,
            r is Ok ==> typed_as(old(context).evaluated_types@, final(context).evaluated_types@, lhs, old(context).evaluated_types@[lhs.0]),
    {
        if !lhs_is_place {
            return Err(TypeValidationError::NotAPlaceExpression);
        }
        let lhs_type = context.get_node_type(lhs);
        if !lhs_type.mutable {
            return Err(TypeValidationError::AssignmentToImmutable);
        }
        let copy = lhs_type.clone();
        context.set_node_type(lhs, copy);
        Ok(())
    }

    /// `lhs op= rhs`: the target must be a changeable place, and the
    /// operator must apply to the two types.
    pub fn visit_inplace_assignment(
        &self,
        node: AstNodeIndex,
        operator: TokenType,
        lhs: AstNodeIndex,
        lhs_is_place: bool,
        rhs: AstNodeIndex,
        context: &mut TypeValidationContext,
    ) -> (r: Result<(), TypeValidationError>)
        requires
            old(context).evaluated_types@.contains_key(lhs.0),
            old(context).evaluated_types@.contains_key(rhs.0),
            lhs.0 != rhs.0,
        ensures
            ({
                let types = old(context).evaluated_types@;
                if !lhs_is_place {
                    r == Err::<(), TypeValidationError>(TypeValidationError::NotAPlaceExpression) && final(context).evaluated_types@ == types
                } else if !types[lhs.0].mutable {
                    r == Err::<(), TypeValidationError>(TypeValidationError::AssignmentToImmutable) && final(context).evaluated_types@ == types
                } else {
                    match spec_match_inplace_assignment_op(operator, types[lhs.0], types[rhs.0]) {
                        None => r == Err::<(), TypeValidationError>(TypeValidationError::InplaceAssignmentMismatch)
                            && final(context).evaluated_types@.dom() == types.dom()
                            && final(context).evaluated_types@[rhs.0] == types[rhs.0],
                        Some(t) => r is Ok && final(context).evaluated_types@.dom() == types.dom().insert(node.0)
                            && same_value_type(final(context).evaluated_types@[node.0], t),
                    }
                }
            }),
    {
        if let Err(e) = self.check_assignment_is_place_expr(lhs, lhs_is_place, context) {
            return Err(e);
        }
        proof {
            assert(context.evaluated_types@.dom() =~= old(context).evaluated_types@.dom());
            assert(old(context).evaluated_types@.contains_key(rhs.0));
            assert(context.evaluated_types@[rhs.0] == old(context).evaluated_types@[rhs.0]);
        }
        let left_type = context.get_node_type(lhs);
        let right_type = context.get_node_type(rhs);
        let found = match_inplace_assignment_op(operator, left_type, right_type);
        proof {
            lemma_inplace_respects_same_types(operator, *left_type, old(context).evaluated_types@[lhs.0], *right_type);
        }
        match found {
            None => Err(TypeValidationError::InplaceAssignmentMismatch),
            Some(t) => {
                context.set_node_type(node, t);
                proof {
                    let types = old(context).evaluated_types@;
                    lemma_same_value_type_transitive(
                        t,
                        spec_match_inplace_assignment_op(operator, *left_type, *right_type).unwrap(),
                        spec_match_inplace_assignment_op(operator, types[lhs.0], types[rhs.0]).unwrap(),
                    );
                }
                Ok(())
            },
        }
    }

    /// `lhs = rhs`: the target must be a changeable place whose type agrees
    /// with the value's; the assignment has the target's type.
    pub fn visit_assignment(
        &self,
        node: AstNodeIndex,
        lhs: AstNodeIndex,
        lhs_is_place: bool,
        rhs: AstNodeIndex,
        context: &mut TypeValidationContext,
    ) -> (r: Result<(), TypeValidationError>)
        requires
            old(context).evaluated_types@.contains_key(lhs.0),
            old(context).evaluated_types@.contains_key(rhs.0),
            lhs.0 != rhs.0,
        ensures
            ({
                let types = old(context).evaluated_types@;
                if !lhs_is_place {
                    r == Err::<(), TypeValidationError>(TypeValidationError::NotAPlaceExpression) && final(context).evaluated_types@ == types
                } else if !types[lhs.0].mutable {
                    r == Err::<(), TypeValidationError>(TypeValidationError::AssignmentToImmutable) && final(context).evaluated_types@ == types
                } else if !spec_inner_type_eq(types[lhs.0].ttype, types[rhs.0].ttype) {
                    r == Err::<(), TypeValidationError>(TypeValidationError::AssignmentMismatch)
                        && final(context).evaluated_types@.dom() == types.dom()
                } else {
                    r is Ok && final(context).evaluated_types@.dom() == types.dom().insert(node.0)
                        && same_value_type(final(context).evaluated_types@[node.0], types[lhs.0])
                }
            }),
    {
        if let Err(e) = self.check_assignment_is_place_expr(lhs, lhs_is_place, context) {
            return Err(e);
        }
        let left_type = context.get_node_type(lhs);
        let right_type = context.get_node_type(rhs);
        proof {
            lemma_inner_eq_respects_same_type(left_type.ttype, old(context).evaluated_types@[lhs.0].ttype, right_type.ttype);
        }
        if !left_type.inner_type_eq(right_type) {
            return Err(TypeValidationError::AssignmentMismatch);
        }
        let copy = left_type.clone();
        context.set_node_type(node, copy);
        proof {
            lemma_same_value_type_transitive(copy, *left_type, old(context).evaluated_types@[lhs.0]);
        }
        Ok(())
    }
}

/// The struct type that `t` stands for, where it stands for one.
pub open spec fn struct_of(t: BuiltinType) -> Option<StructType> {
    match t {
        BuiltinType::Struct(s) => Some(*s),
        _ => None,
    }
}

/// Each field of `typed` has the name of the matching declaration and
/// the type that the declaration's type node was given.
pub open spec fn fields_typed_as(
    typed: Seq<(String, Type)>,
    declared: Seq<(String, AstNodeIndex)>,
    types: Map<usize, Type>,
) -> bool {
    &&& typed.len() == declared.len()
    &&& forall|i: int| 0 <= i < typed.len() ==> (#[trigger] typed[i]).0@ == declared[i].0@
        && same_value_type(typed[i].1, types[declared[i].1.0])
}

/// The first complaint about the field initializers, read in order: a
/// field that the struct does not have, or a value whose type does not
/// agree with the field's.
pub open spec fn initializer_error(
    fields: Seq<(String, Type)>,
    initializers: Seq<(String, AstNodeIndex)>,
    types: Map<usize, Type>,
) -> Option<TypeValidationError>
    decreases initializers.len(),
{
    if initializers.len() == 0 {
        None
    } else {
        match field_type_of(fields, initializers[0].0@) {
            None => Some(TypeValidationError::UnknownField),
            Some(f) => if !spec_inner_type_eq(f.ttype, types[initializers[0].1.0].ttype) {
                Some(TypeValidationError::InitializerTypeMismatch)
            } else {
                initializer_error(fields, initializers.drop_first(), types)
            },
        }
    }
}

/// The type of a field reached through `.`, or why there is none.
pub open spec fn dot_access_type(object: Type, name: Seq<char>) -> Result<Type, TypeValidationError> {
    match struct_of(object.ttype) {
        None => Err(TypeValidationError::NotAStruct),
        Some(s) => match field_type_of(s.fields@, name) {
            None => Err(TypeValidationError::UnknownField),
            Some(f) => Ok(f),
        },
    }
}

/// The type of a field reached through `->`, or why there is none.
pub open spec fn arrow_access_type(pointer: Type, name: Seq<char>) -> Result<Type, TypeValidationError> {
    match pointer.ttype {
        BuiltinType::Pointer(p) => match struct_of(p.inner_type) {
            None => Err(TypeValidationError::NotAStruct),
            Some(s) => match field_type_of(s.fields@, name) {
                None => Err(TypeValidationError::UnknownField),
                Some(f) => Ok(f),
            },
        },
        _ => Err(TypeValidationError::NotAPointer),
    }
}

/// What a call of a value of type `callee` with arguments of the given
/// types is refused for, if anything.
pub open spec fn call_error(callee: Type, arguments: Seq<Type>) -> Option<TypeValidationError> {
    match callee.ttype {
        BuiltinType::Function(f) => if f.arguments@.len() != arguments.len() {
            Some(TypeValidationError::ArgumentCountMismatch)
        } else if exists|i: int| 0 <= i < arguments.len() && !same_type(#[trigger] f.arguments@[i], arguments[i].ttype) {
            Some(TypeValidationError::ArgumentTypeMismatch)
        } else {
            None
        },
        _ => Some(TypeValidationError::NotCallable),
    }
}

/// The type of a `let` statement's variable, or why it has none.
pub open spec fn let_type(
    annotation: Option<Type>,
    initializer: Option<Type>,
    is_mut: bool,
) -> Result<Type, TypeValidationError> {
    match (annotation, initializer) {
        (Some(a), Some(i)) => if spec_inner_type_eq(a.ttype, i.ttype) {
            Ok(Type { ttype: a.ttype, mutable: is_mut })
        } else {
            Err(TypeValidationError::LetTypeMismatch)
        },
        (Some(a), None) => Ok(Type { ttype: a.ttype, mutable: is_mut }),
        (None, Some(i)) => Ok(Type { ttype: i.ttype, mutable: is_mut }),
        (None, None) => Err(TypeValidationError::LetWithoutTypeOrInitializer),
    }
}

/// The type that a type annotation's kind stands for, where the innermost
/// name is a basic type or else names a struct whose declaration has the
/// type `declaration`.
pub open spec fn annotated_type(kind: TypeKind, declaration: Option<Type>) -> Result<BuiltinType, TypeValidationError>
    decreases kind,
{
    match kind {
        TypeKind::Simple(t) => match spec_simple_type(t.name.lexeme@) {
            Some(b) => Ok(b),
            None => match declaration {
                None => Err(TypeValidationError::UnknownType),
                Some(d) => if d.ttype is Struct { Ok(d.ttype) } else { Err(TypeValidationError::NotAStruct) },
            },
        },
        TypeKind::Pointer(p) => match annotated_type(*p.inner_type, declaration) {
            Ok(inner) => Ok(BuiltinType::Pointer(Box::new(PointerType { inner_type: inner, mutable: p.points_to_mut }))),
            Err(e) => Err(e),
        },
    }
}

/// `after` is `before` with `node` typed as `expected` says, or unchanged
/// with the error that `expected` gives.
pub open spec fn typed_by(
    before: Map<usize, Type>,
    after: Map<usize, Type>,
    node: AstNodeIndex,
    expected: Result<Type, TypeValidationError>,
    r: Result<(), TypeValidationError>,
) -> bool {
    match expected {
        Ok(t) => r is Ok && typed_as(before, after, node, t),
        Err(e) => r == Err::<(), TypeValidationError>(e) && after == before,
    }
}

/// The type of a field in a struct type, from the last field of that name.
fn field_of<'a>(s: &'a StructType, name: &str) -> (r: Result<&'a Type, TypeValidationError>)
    ensures
        match field_type_of(s.fields@, name@) {
            Some(f) => r == Ok::<&Type, TypeValidationError>(&f),
            None => r == Err::<&Type, TypeValidationError>(TypeValidationError::UnknownField),
        },
{
    match find_field_type(&s.fields, name) {
        Some(t) => Ok(t),
        None => Err(TypeValidationError::UnknownField),
    }
}

impl TypeValidationSemantics {
    /// A parenthesised expression has the type of what it encloses.
    pub fn visit_grouping(&self, node: AstNodeIndex, inner: AstNodeIndex, context: &mut TypeValidationContext)
        requires
            old(context).evaluated_types@.contains_key(inner.0),
        ensures
            typed_as(old(context).evaluated_types@, final(context).evaluated_types@, node, old(context).evaluated_types@[inner.0]),
    {
        let t = context.get_node_type(inner).clone();
        context.set_node_type(node, t);
    }

    /// A name with a declared type has the type of its annotation.
    pub fn visit_typed_declaration(&self, node: AstNodeIndex, declared_type: AstNodeIndex, context: &mut TypeValidationContext)
        requires
            old(context).evaluated_types@.contains_key(declared_type.0),
        ensures
            typed_as(old(context).evaluated_types@, final(context).evaluated_types@, node, old(context).evaluated_types@[declared_type.0]),
    {
        let t = context.get_node_type(declared_type).clone();
        context.set_node_type(node, t);
    }

    /// A name has the type of the declaration that it refers to.
    pub fn visit_identifier(&self, node: AstNodeIndex, declaration: AstNodeIndex, context: &mut TypeValidationContext)
        requires
            old(context).evaluated_types@.contains_key(declaration.0),
        ensures
            typed_as(old(context).evaluated_types@, final(context).evaluated_types@, node, old(context).evaluated_types@[declaration.0]),
    {
        let t = context.get_node_type(declaration).clone();
        context.set_node_type(node, t);
    }

    /// A literal has the type of its value and cannot be changed.
    pub fn visit_literal(&self, node: AstNodeIndex, literal: &PlainLiteral, context: &mut TypeValidationContext)
        ensures
            final(context).evaluated_types@ == old(context).evaluated_types@.insert(
                node.0,
                Type { ttype: plain_literal_type(*literal), mutable: false },
            ),
    {
        let ttype = match literal {
            PlainLiteral::U8(_) => BuiltinType::U8,
            PlainLiteral::U16(_) => BuiltinType::U16,
            PlainLiteral::U32(_) => BuiltinType::U32,
            PlainLiteral::U64(_) => BuiltinType::U64,
            PlainLiteral::I8(_) => BuiltinType::I8,
            PlainLiteral::I16(_) => BuiltinType::I16,
            PlainLiteral::I32(_) => BuiltinType::I32,
            PlainLiteral::I64(_) => BuiltinType::I64,
            PlainLiteral::Bool(_) => BuiltinType::Bool,
            PlainLiteral::Char(_) => BuiltinType::Char,
            PlainLiteral::String(_) => BuiltinType::String,
        };
        context.set_node_type(node, Type { ttype, mutable: false });
    }
}

impl TypeValidationSemantics {
    /// A `let` statement's variable takes the annotated type, or else the
    /// initializer's; where both are given they must agree.
    pub fn visit_let_statement(
        &self,
        node: AstNodeIndex,
        annotation: Option<AstNodeIndex>,
        initializer: Option<AstNodeIndex>,
        is_mut: bool,
        context: &mut TypeValidationContext,
    ) -> (r: Result<(), TypeValidationError>)
        requires
            annotation matches Some(a) ==> old(context).evaluated_types@.contains_key(a.0),
            initializer matches Some(i) ==> old(context).evaluated_types@.contains_key(i.0),
        ensures
            ({
                let types = old(context).evaluated_types@;
                let expected = let_type(
                    match annotation { Some(a) => Some(types[a.0]), None => None },
                    match initializer { Some(i) => Some(types[i.0]), None => None },
                    is_mut,
                );
                typed_by(types, final(context).evaluated_types@, node, expected, r)
            }),
    {
        let ttype = match (annotation, initializer) {
            (Some(a), Some(i)) => {
                let annotated = context.get_node_type(a);
                let initialized = context.get_node_type(i);
                if !annotated.inner_type_eq(initialized) {
                    return Err(TypeValidationError::LetTypeMismatch);
                }
                annotated.ttype.clone()
            },
            (Some(a), None) => context.get_node_type(a).ttype.clone(),
            (None, Some(i)) => context.get_node_type(i).ttype.clone(),
            (None, None) => return Err(TypeValidationError::LetWithoutTypeOrInitializer),
        };
        context.set_node_type(node, Type { ttype, mutable: is_mut });
        Ok(())
    }

    /// `left as target`: the cast has the target's type; a cast that is
    /// not a reinterpretation must be allowed between the two types.
    pub fn visit_cast(
        &self,
        node: AstNodeIndex,
        left: AstNodeIndex,
        target: AstNodeIndex,
        is_reinterpret_cast: bool,
        context: &mut TypeValidationContext,
    ) -> (r: Result<(), TypeValidationError>)
        requires
            old(context).evaluated_types@.contains_key(target.0),
            !is_reinterpret_cast ==> old(context).evaluated_types@.contains_key(left.0),
            !is_reinterpret_cast ==> cast_sizes_known(old(context).evaluated_types@[left.0], old(context).evaluated_types@[target.0]),
        ensures
            ({
                let types = old(context).evaluated_types@;
                let expected = if !is_reinterpret_cast && !spec_verify_cast_operator(types[left.0], types[target.0]) {
                    Err(TypeValidationError::InvalidCast)
                } else {
                    Ok(types[target.0])
                };
                typed_by(types, final(context).evaluated_types@, node, expected, r)
            }),
    {
        let target_type = context.get_node_type(target);
        if !is_reinterpret_cast {
            let left_type = context.get_node_type(left);
            if !verify_cast_operator(left_type, target_type) {
                return Err(TypeValidationError::InvalidCast);
            }
        }
        let t = target_type.clone();
        context.set_node_type(node, t);
        Ok(())
    }

    /// `object.name`: the object must be a struct with that field; the
    /// access has the field's type.
    pub fn visit_dot_access(&self, node: AstNodeIndex, object: AstNodeIndex, name: &str, context: &mut TypeValidationContext) -> (r: Result<(), TypeValidationError>)
        requires
            old(context).evaluated_types@.contains_key(object.0),
        ensures
            typed_by(
                old(context).evaluated_types@,
                final(context).evaluated_types@,
                node,
                dot_access_type(old(context).evaluated_types@[object.0], name@),
                r,
            ),
    {
        let object_type = context.get_node_type(object);
        let field = match &object_type.ttype {
            BuiltinType::Struct(s) => field_of(s, name),
            _ => Err(TypeValidationError::NotAStruct),
        };
        match field {
            Err(e) => Err(e),
            Ok(f) => {
                let t = f.clone();
                context.set_node_type(node, t);
                Ok(())
            },
        }
    }

    /// `pointer->name`: the pointer must point to a struct with that field;
    /// the access has the field's type.
    pub fn visit_arrow_access(&self, node: AstNodeIndex, pointer: AstNodeIndex, name: &str, context: &mut TypeValidationContext) -> (r: Result<(), TypeValidationError>)
        requires
            old(context).evaluated_types@.contains_key(pointer.0),
        ensures
            typed_by(
                old(context).evaluated_types@,
                final(context).evaluated_types@,
                node,
                arrow_access_type(old(context).evaluated_types@[pointer.0], name@),
                r,
            ),
    {
        let pointer_type = context.get_node_type(pointer);
        let field = match &pointer_type.ttype {
            BuiltinType::Pointer(p) => match &p.inner_type {
                BuiltinType::Struct(s) => field_of(s, name),
                _ => Err(TypeValidationError::NotAStruct),
            },
            _ => Err(TypeValidationError::NotAPointer),
        };
        match field {
            Err(e) => Err(e),
            Ok(f) => {
                let t = f.clone();
                context.set_node_type(node, t);
                Ok(())
            },
        }
    }

    /// A call: the callee must be a function that takes as many arguments,
    /// each of the type given. The call itself is given no type.
    pub fn visit_call(&self, callee: AstNodeIndex, arguments: &Vec<AstNodeIndex>, context: &TypeValidationContext) -> (r: Result<(), TypeValidationError>)
        requires
            context.evaluated_types@.contains_key(callee.0),
            forall|i: int| 0 <= i < arguments.len() ==> context.evaluated_types@.contains_key((#[trigger] arguments@[i]).0),
        ensures
            ({
                let types = context.evaluated_types@;
                match call_error(types[callee.0], Seq::new(arguments@.len(), |i: int| types[arguments@[i].0])) {
                    Some(e) => r == Err::<(), TypeValidationError>(e),
                    None => r is Ok,
                }
            }),
    {
        let ghost types = context.evaluated_types@;
        let ghost argument_types = Seq::new(arguments@.len(), |i: int| types[arguments@[i].0]);
        let callee_type = context.get_node_type(callee);
        let function = match &callee_type.ttype {
            BuiltinType::Function(f) => f,
            _ => return Err(TypeValidationError::NotCallable),
        };
        if function.arguments.len() != arguments.len() {
            return Err(TypeValidationError::ArgumentCountMismatch);
        }
        let mut i: usize = 0;
        while i < arguments.len()
            invariant
                i <= arguments.len(),
                function.arguments@.len() == arguments@.len(),
                types == context.evaluated_types@,
                types.contains_key(callee.0),
                types[callee.0].ttype == BuiltinType::Function(*function),
                argument_types == Seq::new(arguments@.len(), |i: int| types[arguments@[i].0]),
                forall|j: int| 0 <= j < arguments.len() ==> types.contains_key((#[trigger] arguments@[j]).0),
                forall|j: int| 0 <= j < i ==> same_type(#[trigger] function.arguments@[j], argument_types[j].ttype),
            decreases arguments.len() - i,
        {
            let argument_type = context.get_node_type(arguments[i]);
            if function.arguments[i] != argument_type.ttype {
                proof {
                    let k = i as int;
                    assert(!same_type(function.arguments@[k], argument_types[k].ttype));
                    assert(call_error(types[callee.0], argument_types) == Some(TypeValidationError::ArgumentTypeMismatch));
                    assert(argument_types =~= Seq::new(arguments@.len(), |j: int| types[arguments@[j].0]));
                }
                return Err(TypeValidationError::ArgumentTypeMismatch);
            }
            i = i + 1;
        }
        Ok(())
    }
}

impl TypeValidationSemantics {
    /// A struct declaration has a struct type made of its name, its node and
    /// its fields, each with the type of its annotation.
    pub fn visit_struct_statement(
        &self,
        node: AstNodeIndex,
        name: &String,
        fields: &Vec<(String, AstNodeIndex)>,
        context: &mut TypeValidationContext,
    )
        requires
            forall|i: int| 0 <= i < fields.len() ==> old(context).evaluated_types@.contains_key((#[trigger] fields@[i]).1.0),
        ensures
            ({
                let types = old(context).evaluated_types@;
                let after = final(context).evaluated_types@;
                &&& after.dom() == types.dom().insert(node.0)
                &&& forall|k: usize| k != node.0 && #[trigger] types.contains_key(k) ==> after[k] == types[k]
                &&& !after[node.0].mutable
                &&& after[node.0].ttype matches BuiltinType::Struct(s)
                    && s.ast_node_index == node && s.name@ == name@ && fields_typed_as(s.fields@, fields@, types)
            }),
    {
        let ghost types = context.evaluated_types@;
        let mut typed: Vec<(String, Type)> = Vec::new();
        let mut i: usize = 0;
        while i < fields.len()
            invariant
                i <= fields.len(),
                types == context.evaluated_types@,
                forall|j: int| 0 <= j < fields.len() ==> types.contains_key((#[trigger] fields@[j]).1.0),
                fields_typed_as(typed@, fields@.take(i as int), types),
            decreases fields.len() - i,
        {
            let field_type = context.get_node_type(fields[i].1).clone();
            typed.push((fields[i].0.clone(), field_type));
            i = i + 1;
        }
        proof {
            assert(fields@.take(i as int) == fields@);
        }
        let struct_type = StructType { ast_node_index: node, name: name.clone(), fields: typed };
        context.set_node_type(node, Type { ttype: BuiltinType::Struct(Box::new(struct_type)), mutable: false });
    }

    /// A struct initializer: `declaration` is the struct's declaration, whose
    /// type must be a struct type; each initialized field must be one of
    /// its fields, with a value whose type agrees. The initializer has the
    /// struct's type.
    pub fn visit_struct_initializer(
        &self,
        node: AstNodeIndex,
        declaration: AstNodeIndex,
        initializers: &Vec<(String, AstNodeIndex)>,
        context: &mut TypeValidationContext,
    ) -> (r: Result<(), TypeValidationError>)
        requires
            old(context).evaluated_types@.contains_key(declaration.0),
            forall|i: int| 0 <= i < initializers.len() ==> old(context).evaluated_types@.contains_key((#[trigger] initializers@[i]).1.0),
        ensures
            ({
                let types = old(context).evaluated_types@;
                let expected = match struct_of(types[declaration.0].ttype) {
                    None => Err(TypeValidationError::NotAStruct),
                    Some(s) => match initializer_error(s.fields@, initializers@, types) {
                        Some(e) => Err(e),
                        None => Ok(Type { ttype: BuiltinType::Struct(Box::new(s)), mutable: false }),
                    },
                };
                typed_by(types, final(context).evaluated_types@, node, expected, r)
            }),
    {
        let ghost types = context.evaluated_types@;
        let declared = context.get_node_type(declaration);
        let struct_type = match &declared.ttype {
            BuiltinType::Struct(s) => s,
            _ => return Err(TypeValidationError::NotAStruct),
        };
        let mut i: usize = 0;
        proof {
            assert(initializers@.skip(0) == initializers@);
        }
        while i < initializers.len()
            invariant
                i <= initializers.len(),
                types == context.evaluated_types@,
                types.contains_key(declaration.0),
                types[declaration.0].ttype == BuiltinType::Struct(*struct_type),
                forall|j: int| 0 <= j < initializers.len() ==> types.contains_key((#[trigger] initializers@[j]).1.0),
                initializer_error(struct_type.fields@, initializers@, types)
                    == initializer_error(struct_type.fields@, initializers@.skip(i as int), types),
            decreases initializers.len() - i,
        {
            proof {
                assert(initializers@.skip(i as int)[0] == initializers@[i as int]);
                assert(initializers@.skip(i as int).drop_first() == initializers@.skip(i + 1));
            }
            let field_type = match find_field_type(&struct_type.fields, initializers[i].0.as_str()) {
                Some(t) => t,
                None => return Err(TypeValidationError::UnknownField),
            };
            let value_type = context.get_node_type(initializers[i].1);
            if !field_type.inner_type_eq(value_type) {
                return Err(TypeValidationError::InitializerTypeMismatch);
            }
            i = i + 1;
        }
        proof {
            assert(initializers@.skip(i as int).len() == 0);
        }
        let copy = (**struct_type).clone();
        context.set_node_type(node, Type { ttype: BuiltinType::Struct(Box::new(copy)), mutable: false });
        Ok(())
    }
}

/// The type that a kind of annotation stands for, as `annotated_type`
/// says; `declaration` is the type of the struct declaration that the
/// innermost name refers to, where it refers to one.
pub fn builtin_type_from_type_kind(kind: &TypeKind, declaration: Option<&Type>) -> (r: Result<BuiltinType, TypeValidationError>)
    ensures
        match annotated_type(*kind, match declaration { Some(d) => Some(*d), None => None }) {
            Ok(t) => r matches Ok(x) && same_type(x, t),
            Err(e) => r == Err::<BuiltinType, TypeValidationError>(e),
        },
    decreases kind,
{
    match kind {
        TypeKind::Simple(simple_type) => match BuiltinType::from_simple_type(simple_type) {
            Some(b) => {
                proof {
                    lemma_same_type_reflexive(b);
                }
                Ok(b)
            },
            None => match declaration {
                None => Err(TypeValidationError::UnknownType),
                Some(d) => match &d.ttype {
                    BuiltinType::Struct(_) => Ok(d.ttype.clone()),
                    _ => Err(TypeValidationError::NotAStruct),
                },
            },
        },
        TypeKind::Pointer(pointer_type) => match builtin_type_from_type_kind(&pointer_type.inner_type, declaration) {
            Ok(inner) => Ok(BuiltinType::Pointer(Box::new(PointerType { inner_type: inner, mutable: pointer_type.points_to_mut }))),
            Err(e) => Err(e),
        },
    }
}

impl TypeValidationSemantics {
    /// A type annotation has the type that it names, as mutable as it says;
    /// `declaration` is the struct declaration that its innermost name
    /// refers to, where it refers to one.
    pub fn visit_type_annotation(
        &self,
        node: AstNodeIndex,
        annotation: &crate::syntax::ast::TypeAnnotation,
        declaration: Option<AstNodeIndex>,
        context: &mut TypeValidationContext,
    ) -> (r: Result<(), TypeValidationError>)
        requires
            declaration matches Some(d) ==> old(context).evaluated_types@.contains_key(d.0),
        ensures
            ({
                let types = old(context).evaluated_types@;
                let declared = match declaration { Some(d) => Some(types[d.0]), None => None };
                let expected = match annotated_type(annotation.kind, declared) {
                    Ok(b) => Ok(Type { ttype: b, mutable: annotation.is_mut }),
                    Err(e) => Err(e),
                };
                typed_by(types, final(context).evaluated_types@, node, expected, r)
            }),
    {
        let found = match declaration {
            Some(d) => builtin_type_from_type_kind(&annotation.kind, Some(context.get_node_type(d))),
            None => builtin_type_from_type_kind(&annotation.kind, None),
        };
        match found {
            Err(e) => Err(e),
            Ok(b) => {
                context.set_node_type(node, Type { ttype: b, mutable: annotation.is_mut });
                Ok(())
            },
        }
    }
}

/// The struct type called `name` as seen from `node`: its declaration is
/// found through the scopes, and its type in `types`.
pub open spec fn struct_type_named(scopes: ScopeTree, types: Map<usize, Type>, node: AstNodeIndex, name: Seq<char>) -> Result<StructType, TypeValidationError> {
    match struct_declaration(scopes, node, name) {
        Err(_) => Err(TypeValidationError::UnknownType),
        Ok(declaration) => if types.contains_key(declaration.0) {
            match struct_of(types[declaration.0].ttype) {
                Some(s) => Ok(s),
                None => Err(TypeValidationError::NotAStruct),
            }
        } else {
            Err(TypeValidationError::NotAStruct)
        },
    }
}

impl TypeValidationContext {
    /// The struct type called `name` as seen from `node`.
    pub fn find_struct_type_from_name(&self, scopes: &ScopeTree, node: AstNodeIndex, name: &str) -> (r: Result<&StructType, TypeValidationError>)
        requires
            scopes.wf(),
        ensures
            match struct_type_named(*scopes, self.evaluated_types@, node, name@) {
                Ok(s) => r matches Ok(found) && *found == s,
                Err(e) => r matches Err(found) && found == e,
            },
    {
        let declaration = match ScopeResolvingSemantics.visit_struct_initializer(scopes, node, name) {
            Ok(declaration) => declaration,
            Err(_) => return Err(TypeValidationError::UnknownType),
        };
        let declared = match self.evaluated_types.get(&declaration.0) {
            Some(t) => t,
            None => return Err(TypeValidationError::NotAStruct),
        };
        match &declared.ttype {
            BuiltinType::Struct(s) => Ok(s),
            _ => Err(TypeValidationError::NotAStruct),
        }
    }
}

/// Comparing by what types stand for gives the same answer for types that
/// are the same.
pub proof fn lemma_inner_eq_respects_same_type(a: BuiltinType, a2: BuiltinType, b: BuiltinType)
    requires
        same_type(a, a2),
    ensures
        spec_inner_type_eq(a, b) == spec_inner_type_eq(a2, b),
    decreases a,
{
    match a {
        BuiltinType::Pointer(x) => {
            if b is Pointer {
                lemma_inner_eq_respects_same_type(x.inner_type, a2->Pointer_0.inner_type, b->Pointer_0.inner_type);
            }
        },
        BuiltinType::Function(x) => {
            if b is Function {
                let y = *a2->Function_0;
                let z = *b->Function_0;
                if crate::typing::literal_typing::same_function_type(*x, z) {
                    lemma_same_types_symmetric(x.arguments@, y.arguments@);
                    lemma_same_types_transitive(y.arguments@, x.arguments@, z.arguments@);
                    lemma_same_type_symmetric(x.return_type, y.return_type);
                    lemma_same_type_transitive(y.return_type, x.return_type, z.return_type);
                }
                if crate::typing::literal_typing::same_function_type(y, z) {
                    lemma_same_types_transitive(x.arguments@, y.arguments@, z.arguments@);
                    lemma_same_type_transitive(x.return_type, y.return_type, z.return_type);
                }
            }
        },
        _ => {
            if !(a is Struct) {
                if spec_inner_type_eq(a, b) {
                    lemma_same_type_symmetric(a, a2);
                }
            }
        },
    }
}

/// The assignment operators' results depend on the left operand's type
/// only up to agreement: types that agree give results that agree.
pub proof fn lemma_inplace_respects_same_types(operator: TokenType, a: Type, a2: Type, b: Type)
    requires
        same_value_type(a, a2),
    ensures
        (spec_match_inplace_assignment_op(operator, a, b) is Some) == (spec_match_inplace_assignment_op(operator, a2, b) is Some),
        spec_match_inplace_assignment_op(operator, a, b) is Some ==> same_value_type(
            spec_match_inplace_assignment_op(operator, a, b).unwrap(),
            spec_match_inplace_assignment_op(operator, a2, b).unwrap(),
        ),
{
    if a.ttype is Pointer || a.ttype is Function || a.ttype is Struct {
        assert(a.ttype is Pointer ==> a2.ttype is Pointer);
        assert(a.ttype is Function ==> a2.ttype is Function);
        assert(a.ttype is Struct ==> a2.ttype is Struct);
        if spec_match_inplace_assignment_op(operator, a, b) is Some {
            assert(a.ttype is Pointer);
        }
    } else {
        assert(a.ttype == a2.ttype);
        lemma_same_type_reflexive(a.ttype);
    }
}

} // verus!
