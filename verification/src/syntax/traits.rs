use vstd::prelude::*;

use crate::syntax::ast::{Identifier, Literal, PointerAnnotation, StructStatement, Type, TypeAnnotation, TypeKind, TypedDeclaration};
use crate::syntax::lexer::Token;
use crate::utils::name_map::str_eq;

verus! {

/// Comparing syntax trees while ignoring where their tokens stand in the
/// source.
pub trait PartialTreeEq {
    type Other;

    /// When `partial_eq` answers true.
    spec fn tree_eq(&self, other: &Self::Other) -> bool;

    fn partial_eq(&self, other: &Self::Other) -> (r: bool)
        ensures
            r == self.tree_eq(other),
    ;
}

/// Writing a syntax tree out, indented by `indent`.
pub trait TreePrint {
    fn print_tree(&self, indent: usize) -> String;
}

/// Whether the two trees are equal apart from positions.
pub fn partial_eq<T: PartialTreeEq<Other = T>>(a: &T, b: &T) -> (r: bool)
    ensures
        r == a.tree_eq(b),
{
    a.partial_eq(b)
}

/// Whether the two lists have the same length and equal trees, apart from
/// positions, at each place.
pub fn partial_eq_all<T: PartialTreeEq<Other = T>>(a: &Vec<T>, b: &Vec<T>) -> (r: bool)
    ensures
        r == (a@.len() == b@.len() && forall|i: int| 0 <= i < a@.len() ==> #[trigger] a@[i].tree_eq(&b@[i])),
{
    if a.len() != b.len() {
        return false;
    }
    let mut i: usize = 0;
    while i < a.len()
        invariant
            a@.len() == b@.len(),
            i <= a@.len(),
            forall|j: int| 0 <= j < i ==> #[trigger] a@[j].tree_eq(&b@[j]),
        decreases a@.len() - i,
    {
        if !a[i].partial_eq(&b[i]) {
            return false;
        }
        i = i + 1;
    }
    true
}

/// Two tokens are equal apart from positions when their kind, lexeme and
/// literal agree.
pub open spec fn token_eq(a: Token, b: Token) -> bool {
    a.token_type == b.token_type && a.lexeme@ == b.lexeme@ && a.literal@ == b.literal@
}

fn tokens_equal(a: &Token, b: &Token) -> (r: bool)
    ensures
        r == token_eq(*a, *b),
{
    a.token_type == b.token_type && a.lexeme == b.lexeme && a.literal == b.literal
}

/// Two type annotations' kinds agree: simple types by their token, pointers
/// by their mutability and what they point to.
pub open spec fn type_kind_eq(a: TypeKind, b: TypeKind) -> bool
    decreases a,
{
    match a {
        TypeKind::Pointer(x) => b matches TypeKind::Pointer(y) && x.points_to_mut == y.points_to_mut
            && type_kind_eq(*x.inner_type, *y.inner_type),
        TypeKind::Simple(x) => b matches TypeKind::Simple(y) && token_eq(x.name, y.name),
    }
}

fn type_kinds_equal(a: &TypeKind, b: &TypeKind) -> (r: bool)
    ensures
        r == type_kind_eq(*a, *b),
    decreases a,
{
    match (a, b) {
        (TypeKind::Pointer(x), TypeKind::Pointer(y)) =>
            x.points_to_mut == y.points_to_mut && type_kinds_equal(&x.inner_type, &y.inner_type),
        (TypeKind::Simple(x), TypeKind::Simple(y)) => tokens_equal(&x.name, &y.name),
        _ => false,
    }
}

impl PartialTreeEq for Token {
    type Other = Token;

    open spec fn tree_eq(&self, other: &Token) -> bool {
        token_eq(*self, *other)
    }

    fn partial_eq(&self, other: &Token) -> (r: bool) {
        tokens_equal(self, other)
    }
}

impl PartialTreeEq for Type {
    type Other = Type;

    open spec fn tree_eq(&self, other: &Type) -> bool {
        token_eq(self.name, other.name)
    }

    fn partial_eq(&self, other: &Type) -> (r: bool) {
        tokens_equal(&self.name, &other.name)
    }
}

impl PartialTreeEq for PointerAnnotation {
    type Other = PointerAnnotation;

    open spec fn tree_eq(&self, other: &PointerAnnotation) -> bool {
        self.points_to_mut == other.points_to_mut && type_kind_eq(*self.inner_type, *other.inner_type)
    }

    fn partial_eq(&self, other: &PointerAnnotation) -> (r: bool) {
        self.points_to_mut == other.points_to_mut && type_kinds_equal(&self.inner_type, &other.inner_type)
    }
}

impl PartialTreeEq for TypeKind {
    type Other = TypeKind;

    open spec fn tree_eq(&self, other: &TypeKind) -> bool {
        type_kind_eq(*self, *other)
    }

    fn partial_eq(&self, other: &TypeKind) -> (r: bool) {
        type_kinds_equal(self, other)
    }
}

impl PartialTreeEq for TypeAnnotation {
    type Other = TypeAnnotation;

    open spec fn tree_eq(&self, other: &TypeAnnotation) -> bool {
        self.is_mut == other.is_mut && type_kind_eq(self.kind, other.kind)
    }

    fn partial_eq(&self, other: &TypeAnnotation) -> (r: bool) {
        self.is_mut == other.is_mut && type_kinds_equal(&self.kind, &other.kind)
    }
}

impl PartialTreeEq for TypedDeclaration {
    type Other = TypedDeclaration;

    open spec fn tree_eq(&self, other: &TypedDeclaration) -> bool {
        token_eq(self.name, other.name) && self.declared_type.is_mut == other.declared_type.is_mut
            && type_kind_eq(self.declared_type.kind, other.declared_type.kind)
    }

    fn partial_eq(&self, other: &TypedDeclaration) -> (r: bool) {
        tokens_equal(&self.name, &other.name) && self.declared_type.partial_eq(&other.declared_type)
    }
}

impl PartialTreeEq for Identifier {
    type Other = Identifier;

    open spec fn tree_eq(&self, other: &Identifier) -> bool {
        token_eq(self.name, other.name)
    }

    fn partial_eq(&self, other: &Identifier) -> (r: bool) {
        tokens_equal(&self.name, &other.name)
    }
}

impl PartialTreeEq for StructStatement {
    type Other = StructStatement;

    open spec fn tree_eq(&self, other: &StructStatement) -> bool {
        &&& token_eq(self.name, other.name)
        &&& token_eq(self.token, other.token)
        &&& self.fields@.len() == other.fields@.len()
        &&& forall|i: int| 0 <= i < self.fields@.len() ==> #[trigger] self.fields@[i].tree_eq(&other.fields@[i])
    }

    fn partial_eq(&self, other: &StructStatement) -> (r: bool) {
        tokens_equal(&self.name, &other.name) && tokens_equal(&self.token, &other.token)
            && partial_eq_all(&self.fields, &other.fields)
    }
}

/// Every type annotation equals itself apart from positions.
pub proof fn lemma_type_kind_eq_reflexive(a: TypeKind)
    ensures
        type_kind_eq(a, a),
    decreases a,
{
    if let TypeKind::Pointer(x) = a {
        lemma_type_kind_eq_reflexive(*x.inner_type);
    }
}

/// Equality apart from positions is symmetric.
pub proof fn lemma_type_kind_eq_symmetric(a: TypeKind, b: TypeKind)
    requires
        type_kind_eq(a, b),
    ensures
        type_kind_eq(b, a),
    decreases a,
{
    if let TypeKind::Pointer(x) = a {
        lemma_type_kind_eq_symmetric(*x.inner_type, *b->Pointer_0.inner_type);
    }
}

/// Equality apart from positions is transitive.
pub proof fn lemma_type_kind_eq_transitive(a: TypeKind, b: TypeKind, c: TypeKind)
    requires
        type_kind_eq(a, b),
        type_kind_eq(b, c),
    ensures
        type_kind_eq(a, c),
    decreases a,
{
    if let TypeKind::Pointer(x) = a {
        lemma_type_kind_eq_transitive(*x.inner_type, *b->Pointer_0.inner_type, *c->Pointer_0.inner_type);
    }
}

/// Whether two literals are of the same kind, with equal tokens apart from
/// positions and equal values; a floating-point literal's value is its
/// token's text.
pub open spec fn literal_eq(a: Literal, b: Literal) -> bool {
    match (a, b) {
        (Literal::U8 { token: at, value: av }, Literal::U8 { token: bt, value: bv }) => token_eq(at, bt) && av == bv,
        (Literal::U16 { token: at, value: av }, Literal::U16 { token: bt, value: bv }) => token_eq(at, bt) && av == bv,
        (Literal::U32 { token: at, value: av }, Literal::U32 { token: bt, value: bv }) => token_eq(at, bt) && av == bv,
        (Literal::U64 { token: at, value: av }, Literal::U64 { token: bt, value: bv }) => token_eq(at, bt) && av == bv,
        (Literal::I8 { token: at, value: av }, Literal::I8 { token: bt, value: bv }) => token_eq(at, bt) && av == bv,
        (Literal::I16 { token: at, value: av }, Literal::I16 { token: bt, value: bv }) => token_eq(at, bt) && av == bv,
        (Literal::I32 { token: at, value: av }, Literal::I32 { token: bt, value: bv }) => token_eq(at, bt) && av == bv,
        (Literal::I64 { token: at, value: av }, Literal::I64 { token: bt, value: bv }) => token_eq(at, bt) && av == bv,
        (Literal::F32 { token: at }, Literal::F32 { token: bt }) => token_eq(at, bt),
        (Literal::F64 { token: at }, Literal::F64 { token: bt }) => token_eq(at, bt),
        (Literal::Bool { token: at, value: av }, Literal::Bool { token: bt, value: bv }) => token_eq(at, bt) && av == bv,
        (Literal::Char { token: at, value: av }, Literal::Char { token: bt, value: bv }) => token_eq(at, bt) && av == bv,
        (Literal::String { token: at, value: av }, Literal::String { token: bt, value: bv }) => token_eq(at, bt) && av@ == bv@,
        (Literal::MultilineString { token: at, value: av }, Literal::MultilineString { token: bt, value: bv }) =>
            token_eq(at, bt) && av@ == bv@,
        _ => false,
    }
}

impl PartialTreeEq for Literal {
    type Other = Literal;

    open spec fn tree_eq(&self, other: &Literal) -> bool {
        literal_eq(*self, *other)
    }

    fn partial_eq(&self, other: &Literal) -> (r: bool) {
        match (self, other) {
            (Literal::U8 { token: at, value: av }, Literal::U8 { token: bt, value: bv }) => at.partial_eq(bt) && *av == *bv,
            (Literal::U16 { token: at, value: av }, Literal::U16 { token: bt, value: bv }) => at.partial_eq(bt) && *av == *bv,
            (Literal::U32 { token: at, value: av }, Literal::U32 { token: bt, value: bv }) => at.partial_eq(bt) && *av == *bv,
            (Literal::U64 { token: at, value: av }, Literal::U64 { token: bt, value: bv }) => at.partial_eq(bt) && *av == *bv,
            (Literal::I8 { token: at, value: av }, Literal::I8 { token: bt, value: bv }) => at.partial_eq(bt) && *av == *bv,
            (Literal::I16 { token: at, value: av }, Literal::I16 { token: bt, value: bv }) => at.partial_eq(bt) && *av == *bv,
            (Literal::I32 { token: at, value: av }, Literal::I32 { token: bt, value: bv }) => at.partial_eq(bt) && *av == *bv,
            (Literal::I64 { token: at, value: av }, Literal::I64 { token: bt, value: bv }) => at.partial_eq(bt) && *av == *bv,
            (Literal::F32 { token: at }, Literal::F32 { token: bt }) => at.partial_eq(bt),
            (Literal::F64 { token: at }, Literal::F64 { token: bt }) => at.partial_eq(bt),
            (Literal::Bool { token: at, value: av }, Literal::Bool { token: bt, value: bv }) => at.partial_eq(bt) && *av == *bv,
            (Literal::Char { token: at, value: av }, Literal::Char { token: bt, value: bv }) => at.partial_eq(bt) && *av == *bv,
            (Literal::String { token: at, value: av }, Literal::String { token: bt, value: bv }) =>
                at.partial_eq(bt) && str_eq(av.as_str(), bv.as_str()),
            (Literal::MultilineString { token: at, value: av }, Literal::MultilineString { token: bt, value: bv }) =>
                at.partial_eq(bt) && str_eq(av.as_str(), bv.as_str()),
            _ => false,
        }
    }
}

} // verus!
