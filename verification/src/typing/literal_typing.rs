use vstd::prelude::*;

use crate::syntax::ast::{AstNodeIndex, Type as AstType, TypeAnnotation, TypeKind};
use crate::syntax::tokens::TokenType;
use crate::utils::name_map::str_eq;
use crate::utils::text::push_str;
use vstd::std_specs::cmp::PartialEqSpecImpl;

verus! {

/// The type of a function: the types of its arguments and of its result.
#[derive(Debug)]
pub struct FunctionType {
    pub arguments: Vec<BuiltinType>,
    pub return_type: BuiltinType,
}

/// The type of a struct: the node that declares it, its name and its fields
/// in declaration order.
#[derive(Debug)]
pub struct StructType {
    pub ast_node_index: AstNodeIndex,
    pub name: String,
    pub fields: Vec<(String, Type)>,
}

/// A pointer to values of `inner_type`, through which they may be changed
/// when `mutable`.
#[derive(Debug)]
pub struct PointerType {
    pub inner_type: BuiltinType,
    pub mutable: bool,
}

#[derive(Debug)]
pub enum BuiltinType {
    Void,
    Null,
    Bool,
    I8,
    I16,
    I32,
    I64,
    U8,
    U16,
    U32,
    U64,
    F32,
    F64,
    Usize,
    Char,
    String,
    Pointer(Box<PointerType>),
    Function(Box<FunctionType>),
    Struct(Box<StructType>),
}

/// A type together with whether a value of it may be changed.
#[derive(Debug)]
pub struct Type {
    pub ttype: BuiltinType,
    pub mutable: bool,
}

/// Whether `a` and `b` are the same type: pointers, function types and
/// struct types are compared part by part, the other types by kind.
pub open spec fn same_type(a: BuiltinType, b: BuiltinType) -> bool
    decreases a,
{
    match a {
        BuiltinType::Pointer(x) => b matches BuiltinType::Pointer(y)
            && x.mutable == y.mutable && same_type(x.inner_type, y.inner_type),
        BuiltinType::Function(x) => b matches BuiltinType::Function(y)
            && same_types(x.arguments@, y.arguments@)
            && same_type(x.return_type, y.return_type),
        BuiltinType::Struct(x) => b matches BuiltinType::Struct(y)
            && x.ast_node_index == y.ast_node_index && x.name@ == y.name@
            && same_fields(x.fields@, y.fields@),
        _ => a == b,
    }
}

/// Whether two lists of types have the same length and the same type at
/// each position.
pub open spec fn same_types(a: Seq<BuiltinType>, b: Seq<BuiltinType>) -> bool
    decreases a,
{
    if a.len() == 0 {
        b.len() == 0
    } else {
        b.len() > 0 && same_types(a.drop_last(), b.drop_last()) && same_type(a.last(), b.last())
    }
}

/// Whether two lists of struct fields have the same names, mutability and
/// types at each position.
pub open spec fn same_fields(a: Seq<(String, Type)>, b: Seq<(String, Type)>) -> bool
    decreases a,
{
    if a.len() == 0 {
        b.len() == 0
    } else {
        &&& b.len() > 0
        &&& same_fields(a.drop_last(), b.drop_last())
        &&& a.last().0@ == b.last().0@
        &&& a.last().1.mutable == b.last().1.mutable
        &&& same_type(a.last().1.ttype, b.last().1.ttype)
    }
}

/// Whether two values' types and mutability agree.
pub open spec fn same_value_type(a: Type, b: Type) -> bool {
    a.mutable == b.mutable && same_type(a.ttype, b.ttype)
}

/// Whether two pointer types are the same type.
pub open spec fn same_pointer_type(a: PointerType, b: PointerType) -> bool {
    a.mutable == b.mutable && same_type(a.inner_type, b.inner_type)
}

/// Whether two function types are the same type.
pub open spec fn same_function_type(a: FunctionType, b: FunctionType) -> bool {
    same_types(a.arguments@, b.arguments@) && same_type(a.return_type, b.return_type)
}

/// Whether two struct types are the same type.
pub open spec fn same_struct_type(a: StructType, b: StructType) -> bool {
    a.ast_node_index == b.ast_node_index && a.name@ == b.name@ && same_fields(a.fields@, b.fields@)
}

/// `same_type` holds of every type and itself.
pub proof fn lemma_same_type_reflexive(a: BuiltinType)
    ensures
        same_type(a, a),
    decreases a,
{
    match a {
        BuiltinType::Pointer(x) => lemma_same_type_reflexive(x.inner_type),
        BuiltinType::Function(x) => {
            lemma_same_types_reflexive(x.arguments@);
            lemma_same_type_reflexive(x.return_type);
        },
        BuiltinType::Struct(x) => lemma_same_fields_reflexive(x.fields@),
        _ => {},
    }
}

/// `same_types` holds of every list of types and itself.
pub proof fn lemma_same_types_reflexive(a: Seq<BuiltinType>)
    ensures
        same_types(a, a),
    decreases a,
{
    if a.len() > 0 {
        lemma_same_types_reflexive(a.drop_last());
        lemma_same_type_reflexive(a.last());
    }
}

/// `same_fields` holds of every list of fields and itself.
pub proof fn lemma_same_fields_reflexive(a: Seq<(String, Type)>)
    ensures
        same_fields(a, a),
    decreases a,
{
    if a.len() > 0 {
        lemma_same_fields_reflexive(a.drop_last());
        lemma_same_type_reflexive(a.last().1.ttype);
    }
}

impl Clone for PointerType {
    fn clone(&self) -> (r: Self)
        ensures
            same_pointer_type(r, *self),
        decreases self,
    {
        PointerType { inner_type: self.inner_type.clone(), mutable: self.mutable }
    }
}

impl Clone for FunctionType {
    fn clone(&self) -> (r: Self)
        ensures
            same_function_type(r, *self),
        decreases self,
    {
        let mut arguments: Vec<BuiltinType> = Vec::new();
        let mut i: usize = 0;
        while i < self.arguments.len()
            invariant
                i <= self.arguments@.len(),
                same_types(arguments@, self.arguments@.take(i as int)),
            decreases self.arguments@.len() - i,
        {
            let argument = self.arguments[i].clone();
            proof {
                assert(self.arguments@.take(i + 1).drop_last() == self.arguments@.take(i as int));
            }
            let ghost before = arguments@;
            arguments.push(argument);
            proof {
                assert(arguments@.drop_last() == before);
            }
            i = i + 1;
        }
        proof {
            assert(self.arguments@.take(i as int) == self.arguments@);
        }
        FunctionType { arguments, return_type: self.return_type.clone() }
    }
}

impl Clone for StructType {
    fn clone(&self) -> (r: Self)
        ensures
            same_struct_type(r, *self),
        decreases self,
    {
        let mut fields: Vec<(String, Type)> = Vec::new();
        let mut i: usize = 0;
        while i < self.fields.len()
            invariant
                i <= self.fields@.len(),
                same_fields(fields@, self.fields@.take(i as int)),
            decreases self.fields@.len() - i,
        {
            let field = &self.fields[i];
            let field_copy = (field.0.clone(), field.1.clone());
            let ghost before = fields@;
            fields.push(field_copy);
            proof {
                assert(self.fields@.take(i + 1).drop_last() == self.fields@.take(i as int));
                assert(fields@.drop_last() == before);
            }
            i = i + 1;
        }
        proof {
            assert(self.fields@.take(i as int) == self.fields@);
        }
        StructType { ast_node_index: self.ast_node_index, name: self.name.clone(), fields }
    }
}

impl Clone for BuiltinType {
    fn clone(&self) -> (r: Self)
        ensures
            same_type(r, *self),
        decreases self,
    {
        match self {
            BuiltinType::Void => BuiltinType::Void,
            BuiltinType::Null => BuiltinType::Null,
            BuiltinType::Bool => BuiltinType::Bool,
            BuiltinType::I8 => BuiltinType::I8,
            BuiltinType::I16 => BuiltinType::I16,
            BuiltinType::I32 => BuiltinType::I32,
            BuiltinType::I64 => BuiltinType::I64,
            BuiltinType::U8 => BuiltinType::U8,
            BuiltinType::U16 => BuiltinType::U16,
            BuiltinType::U32 => BuiltinType::U32,
            BuiltinType::U64 => BuiltinType::U64,
            BuiltinType::F32 => BuiltinType::F32,
            BuiltinType::F64 => BuiltinType::F64,
            BuiltinType::Usize => BuiltinType::Usize,
            BuiltinType::Char => BuiltinType::Char,
            BuiltinType::String => BuiltinType::String,
            BuiltinType::Pointer(p) => BuiltinType::Pointer(Box::new((**p).clone())),
            BuiltinType::Function(f) => BuiltinType::Function(Box::new((**f).clone())),
            BuiltinType::Struct(s) => BuiltinType::Struct(Box::new((**s).clone())),
        }
    }
}

impl Clone for Type {
    fn clone(&self) -> (r: Self)
        ensures
            same_value_type(r, *self),
        decreases self,
    {
        Type { ttype: self.ttype.clone(), mutable: self.mutable }
    }
}


// ---------------------------------------------------------------------------
// Sizes

/// The number of bytes that a value of type `t` takes; a struct takes the
/// sum of its fields.
pub open spec fn type_size(t: BuiltinType) -> int
    decreases t,
{
    match t {
        BuiltinType::Void => 0,
        BuiltinType::Bool | BuiltinType::I8 | BuiltinType::U8 | BuiltinType::Char => 1,
        BuiltinType::I16 | BuiltinType::U16 => 2,
        BuiltinType::I32 | BuiltinType::U32 | BuiltinType::F32 => 4,
        BuiltinType::I64 | BuiltinType::U64 | BuiltinType::F64 => 8,
        BuiltinType::Struct(s) => fields_size(s.fields@),
        BuiltinType::String => 0,
        _ => vstd::layout::size_of::<usize>() as int,
    }
}

/// The sum of the sizes of a list of fields.
pub open spec fn fields_size(fields: Seq<(String, Type)>) -> int
    decreases fields,
{
    if fields.len() == 0 {
        0
    } else {
        fields_size(fields.drop_last()) + type_size(fields.last().1.ttype)
    }
}

/// Whether `t` has a size: strings have none, and a struct has one when
/// every field has one and their sum fits in a `usize`.
pub open spec fn type_has_size(t: BuiltinType) -> bool
    decreases t,
{
    match t {
        BuiltinType::String => false,
        BuiltinType::Struct(s) => fields_have_size(s.fields@),
        _ => true,
    }
}

/// Whether every field of the list has a size and every partial sum of
/// their sizes fits in a `usize`.
pub open spec fn fields_have_size(fields: Seq<(String, Type)>) -> bool
    decreases fields,
{
    if fields.len() == 0 {
        true
    } else {
        &&& fields_have_size(fields.drop_last())
        &&& type_has_size(fields.last().1.ttype)
        &&& fields_size(fields) <= usize::MAX
    }
}

/// Sizes are never negative.
pub proof fn lemma_type_size_nonnegative(t: BuiltinType)
    ensures
        type_size(t) >= 0,
    decreases t,
{
    broadcast use vstd::layout::layout_of_primitives;
    if let BuiltinType::Struct(s) = t {
        lemma_fields_size_nonnegative(s.fields@);
    }
}

/// The sum of field sizes is never negative.
pub proof fn lemma_fields_size_nonnegative(fields: Seq<(String, Type)>)
    ensures
        fields_size(fields) >= 0,
    decreases fields,
{
    if fields.len() > 0 {
        lemma_fields_size_nonnegative(fields.drop_last());
        lemma_type_size_nonnegative(fields.last().1.ttype);
    }
}

/// Every prefix of a list of sized fields is sized.
pub proof fn lemma_fields_have_size_prefix(fields: Seq<(String, Type)>, k: int)
    requires
        fields_have_size(fields),
        0 <= k <= fields.len(),
    ensures
        fields_have_size(fields.take(k)),
    decreases fields.len(),
{
    if k == fields.len() {
        assert(fields.take(k) == fields);
    } else {
        assert(fields.drop_last().take(k) == fields.take(k));
        lemma_fields_have_size_prefix(fields.drop_last(), k);
    }
}

/// The size of a type.
pub trait TypeSize {
    /// Whether the value has a size at all.
    spec fn is_sized(&self) -> bool;

    /// The size in bytes.
    spec fn byte_size(&self) -> int;

    fn size(&self) -> (r: usize)
        requires
            self.is_sized(),
        ensures
            r == self.byte_size(),
    ;
}

/// The size of `t`, in bytes.
fn builtin_type_size(t: &BuiltinType) -> (r: usize)
    requires
        type_has_size(*t),
    ensures
        r == type_size(*t),
    decreases t,
{
    broadcast use vstd::layout::layout_of_primitives;
    match t {
        BuiltinType::Void => 0,
        BuiltinType::Null => std::mem::size_of::<usize>(),
        BuiltinType::Bool => std::mem::size_of::<bool>(),
        BuiltinType::I8 | BuiltinType::U8 | BuiltinType::Char => 1,
        BuiltinType::I16 | BuiltinType::U16 => 2,
        BuiltinType::I32 | BuiltinType::U32 | BuiltinType::F32 => 4,
        BuiltinType::I64 | BuiltinType::U64 | BuiltinType::F64 => 8,
        BuiltinType::Usize | BuiltinType::Pointer(_) | BuiltinType::Function(_) => std::mem::size_of::<usize>(),
        BuiltinType::Struct(s) => struct_fields_size(&s.fields),
        BuiltinType::String => 0,
    }
}

/// The sum of the sizes of `fields`, in bytes.
fn struct_fields_size(fields: &Vec<(String, Type)>) -> (r: usize)
    requires
        fields_have_size(fields@),
    ensures
        r == fields_size(fields@),
    decreases fields,
{
    let mut total: usize = 0;
    let mut i: usize = 0;
    while i < fields.len()
        invariant
            i <= fields@.len(),
            fields_have_size(fields@),
            total == fields_size(fields@.take(i as int)),
        decreases fields@.len() - i,
    {
        proof {
            lemma_fields_have_size_prefix(fields@, i + 1);
            assert(fields@.take(i + 1).drop_last() == fields@.take(i as int));
            assert(decreases_to!(fields => fields@[i as int].1.ttype));
        }
        let field_size = builtin_type_size(&fields[i].1.ttype);
        total = total + field_size;
        i = i + 1;
    }
    proof {
        assert(fields@.take(i as int) == fields@);
    }
    total
}

impl TypeSize for BuiltinType {
    open spec fn is_sized(&self) -> bool {
        type_has_size(*self)
    }

    open spec fn byte_size(&self) -> int {
        type_size(*self)
    }

    fn size(&self) -> (r: usize) {
        builtin_type_size(self)
    }
}

impl TypeSize for StructType {
    open spec fn is_sized(&self) -> bool {
        fields_have_size(self.fields@)
    }

    open spec fn byte_size(&self) -> int {
        fields_size(self.fields@)
    }

    fn size(&self) -> (r: usize) {
        struct_fields_size(&self.fields)
    }
}

impl TypeSize for Type {
    open spec fn is_sized(&self) -> bool {
        type_has_size(self.ttype)
    }

    open spec fn byte_size(&self) -> int {
        type_size(self.ttype)
    }

    fn size(&self) -> (r: usize) {
        builtin_type_size(&self.ttype)
    }
}


// ---------------------------------------------------------------------------
// Comparing types

/// Whether `same_types` holds of every pair of equally long prefixes.
pub proof fn lemma_same_types_prefix(a: Seq<BuiltinType>, b: Seq<BuiltinType>, k: int)
    requires
        same_types(a, b),
        0 <= k <= a.len(),
    ensures
        a.len() == b.len(),
        same_types(a.take(k), b.take(k)),
    decreases a.len(),
{
    if a.len() > 0 {
        lemma_same_types_prefix(a.drop_last(), b.drop_last(), if k == a.len() { 0 } else { k });
    }
    if k == a.len() {
        assert(a.take(k) == a);
        assert(b.take(k) == b);
    } else {
        assert(a.drop_last().take(k) == a.take(k));
        assert(b.drop_last().take(k) == b.take(k));
    }
}

/// Whether `same_fields` holds of every pair of equally long prefixes.
pub proof fn lemma_same_fields_prefix(a: Seq<(String, Type)>, b: Seq<(String, Type)>, k: int)
    requires
        same_fields(a, b),
        0 <= k <= a.len(),
    ensures
        a.len() == b.len(),
        same_fields(a.take(k), b.take(k)),
    decreases a.len(),
{
    if a.len() > 0 {
        lemma_same_fields_prefix(a.drop_last(), b.drop_last(), if k == a.len() { 0 } else { k });
    }
    if k == a.len() {
        assert(a.take(k) == a);
        assert(b.take(k) == b);
    } else {
        assert(a.drop_last().take(k) == a.take(k));
        assert(b.drop_last().take(k) == b.take(k));
    }
}

/// Whether `a` and `b` are the same type.
fn builtin_types_equal(a: &BuiltinType, b: &BuiltinType) -> (r: bool)
    ensures
        r == same_type(*a, *b),
    decreases a,
{
    match (a, b) {
        (BuiltinType::Pointer(x), BuiltinType::Pointer(y)) =>
            x.mutable == y.mutable && builtin_types_equal(&x.inner_type, &y.inner_type),
        (BuiltinType::Function(x), BuiltinType::Function(y)) =>
            type_lists_equal(&x.arguments, &y.arguments)
                && builtin_types_equal(&x.return_type, &y.return_type),
        (BuiltinType::Struct(x), BuiltinType::Struct(y)) =>
            x.ast_node_index.0 == y.ast_node_index.0 && str_eq(x.name.as_str(), y.name.as_str())
                && field_lists_equal(&x.fields, &y.fields),
        (BuiltinType::Void, BuiltinType::Void) => true,
        (BuiltinType::Null, BuiltinType::Null) => true,
        (BuiltinType::Bool, BuiltinType::Bool) => true,
        (BuiltinType::I8, BuiltinType::I8) => true,
        (BuiltinType::I16, BuiltinType::I16) => true,
        (BuiltinType::I32, BuiltinType::I32) => true,
        (BuiltinType::I64, BuiltinType::I64) => true,
        (BuiltinType::U8, BuiltinType::U8) => true,
        (BuiltinType::U16, BuiltinType::U16) => true,
        (BuiltinType::U32, BuiltinType::U32) => true,
        (BuiltinType::U64, BuiltinType::U64) => true,
        (BuiltinType::F32, BuiltinType::F32) => true,
        (BuiltinType::F64, BuiltinType::F64) => true,
        (BuiltinType::Usize, BuiltinType::Usize) => true,
        (BuiltinType::Char, BuiltinType::Char) => true,
        (BuiltinType::String, BuiltinType::String) => true,
        _ => false,
    }
}

/// Whether two lists of types are the same, position by position.
fn type_lists_equal(a: &Vec<BuiltinType>, b: &Vec<BuiltinType>) -> (r: bool)
    ensures
        r == same_types(a@, b@),
    decreases a,
{
    if a.len() != b.len() {
        proof {
            if same_types(a@, b@) {
                lemma_same_types_prefix(a@, b@, 0);
            }
        }
        return false;
    }
    let mut i: usize = 0;
    while i < a.len()
        invariant
            a@.len() == b@.len(),
            i <= a@.len(),
            same_types(a@.take(i as int), b@.take(i as int)),
        decreases a@.len() - i,
    {
        proof {
            assert(a@.take(i + 1).drop_last() == a@.take(i as int));
            assert(b@.take(i + 1).drop_last() == b@.take(i as int));
            assert(decreases_to!(a => a@[i as int]));
        }
        if !builtin_types_equal(&a[i], &b[i]) {
            proof {
                if same_types(a@, b@) {
                    lemma_same_types_prefix(a@, b@, i + 1);
                }
            }
            return false;
        }
        i = i + 1;
    }
    proof {
        assert(a@.take(i as int) == a@);
        assert(b@.take(i as int) == b@);
    }
    true
}

/// Whether two lists of struct fields are the same, position by position.
fn field_lists_equal(a: &Vec<(String, Type)>, b: &Vec<(String, Type)>) -> (r: bool)
    ensures
        r == same_fields(a@, b@),
    decreases a,
{
    if a.len() != b.len() {
        proof {
            if same_fields(a@, b@) {
                lemma_same_fields_prefix(a@, b@, 0);
            }
        }
        return false;
    }
    let mut i: usize = 0;
    while i < a.len()
        invariant
            a@.len() == b@.len(),
            i <= a@.len(),
            same_fields(a@.take(i as int), b@.take(i as int)),
        decreases a@.len() - i,
    {
        proof {
            assert(a@.take(i + 1).drop_last() == a@.take(i as int));
            assert(b@.take(i + 1).drop_last() == b@.take(i as int));
            assert(decreases_to!(a => a@[i as int].1.ttype));
        }
        let x = &a[i];
        let y = &b[i];
        if !(str_eq(x.0.as_str(), y.0.as_str()) && x.1.mutable == y.1.mutable
            && builtin_types_equal(&x.1.ttype, &y.1.ttype)) {
            proof {
                if same_fields(a@, b@) {
                    lemma_same_fields_prefix(a@, b@, i + 1);
                }
            }
            return false;
        }
        i = i + 1;
    }
    proof {
        assert(a@.take(i as int) == a@);
        assert(b@.take(i as int) == b@);
    }
    true
}

impl PartialEq for BuiltinType {
    fn eq(&self, other: &Self) -> (r: bool) {
        builtin_types_equal(self, other)
    }
}

impl PartialEqSpecImpl for BuiltinType {
    open spec fn obeys_eq_spec() -> bool {
        true
    }

    open spec fn eq_spec(&self, other: &Self) -> bool {
        same_type(*self, *other)
    }
}

impl PartialEq for Type {
    fn eq(&self, other: &Self) -> (r: bool) {
        self.mutable == other.mutable && builtin_types_equal(&self.ttype, &other.ttype)
    }
}

impl PartialEqSpecImpl for Type {
    open spec fn obeys_eq_spec() -> bool {
        true
    }

    open spec fn eq_spec(&self, other: &Self) -> bool {
        same_value_type(*self, *other)
    }
}

/// Whether two types agree when only the identity of structs is compared:
/// pointers by what they point to, function types in full, structs by the
/// node that declares them, the other types by kind.
pub open spec fn spec_inner_type_eq(a: BuiltinType, b: BuiltinType) -> bool
    decreases a,
{
    match a {
        BuiltinType::Pointer(x) => b matches BuiltinType::Pointer(y) && spec_inner_type_eq(x.inner_type, y.inner_type),
        BuiltinType::Function(x) => b matches BuiltinType::Function(y) && same_function_type(*x, *y),
        BuiltinType::Struct(x) => b matches BuiltinType::Struct(y) && x.ast_node_index == y.ast_node_index,
        _ => a == b,
    }
}

/// Comparing types by what they stand for.
pub trait InnerTypeEq {
    /// When `inner_type_eq` answers true.
    spec fn inner_eq(&self, other: &Self) -> bool;

    fn inner_type_eq(&self, other: &Self) -> (r: bool)
        ensures
            r == self.inner_eq(other),
    ;
}

/// Whether `a` and `b` agree in the sense of `spec_inner_type_eq`.
fn builtin_inner_type_eq(a: &BuiltinType, b: &BuiltinType) -> (r: bool)
    ensures
        r == spec_inner_type_eq(*a, *b),
    decreases a,
{
    match (a, b) {
        (BuiltinType::Pointer(x), BuiltinType::Pointer(y)) => builtin_inner_type_eq(&x.inner_type, &y.inner_type),
        (BuiltinType::Function(x), BuiltinType::Function(y)) =>
            type_lists_equal(&x.arguments, &y.arguments)
                && builtin_types_equal(&x.return_type, &y.return_type),
        (BuiltinType::Struct(x), BuiltinType::Struct(y)) => x.ast_node_index.0 == y.ast_node_index.0,
        (BuiltinType::Pointer(_), _) | (BuiltinType::Function(_), _) | (BuiltinType::Struct(_), _) => false,
        _ => {
            let r = builtin_types_equal(a, b);
            r
        },
    }
}

impl InnerTypeEq for FunctionType {
    open spec fn inner_eq(&self, other: &Self) -> bool {
        same_function_type(*self, *other)
    }

    fn inner_type_eq(&self, other: &Self) -> (r: bool) {
        type_lists_equal(&self.arguments, &other.arguments)
            && builtin_types_equal(&self.return_type, &other.return_type)
    }
}

impl InnerTypeEq for StructType {
    open spec fn inner_eq(&self, other: &Self) -> bool {
        self.ast_node_index == other.ast_node_index
    }

    fn inner_type_eq(&self, other: &Self) -> (r: bool) {
        self.ast_node_index.0 == other.ast_node_index.0
    }
}

impl InnerTypeEq for PointerType {
    open spec fn inner_eq(&self, other: &Self) -> bool {
        spec_inner_type_eq(self.inner_type, other.inner_type)
    }

    fn inner_type_eq(&self, other: &Self) -> (r: bool) {
        builtin_inner_type_eq(&self.inner_type, &other.inner_type)
    }
}

impl InnerTypeEq for BuiltinType {
    open spec fn inner_eq(&self, other: &Self) -> bool {
        spec_inner_type_eq(*self, *other)
    }

    fn inner_type_eq(&self, other: &Self) -> (r: bool) {
        builtin_inner_type_eq(self, other)
    }
}

impl InnerTypeEq for Type {
    open spec fn inner_eq(&self, other: &Self) -> bool {
        spec_inner_type_eq(self.ttype, other.ttype)
    }

    fn inner_type_eq(&self, other: &Self) -> (r: bool) {
        builtin_inner_type_eq(&self.ttype, &other.ttype)
    }
}

/// Every type agrees with itself when compared by what it stands for.
pub proof fn lemma_inner_type_eq_reflexive(a: BuiltinType)
    ensures
        spec_inner_type_eq(a, a),
    decreases a,
{
    match a {
        BuiltinType::Pointer(x) => lemma_inner_type_eq_reflexive(x.inner_type),
        BuiltinType::Function(x) => {
            lemma_same_types_reflexive(x.arguments@);
            lemma_same_type_reflexive(x.return_type);
        },
        _ => {},
    }
}


// ---------------------------------------------------------------------------
// Kinds of types and building them

impl BuiltinType {
    pub open spec fn spec_is_integer(self) -> bool {
        self is I8 || self is I16 || self is I32 || self is I64
            || self is U8 || self is U16 || self is U32 || self is U64
    }

    pub open spec fn spec_is_float(self) -> bool {
        self is F32 || self is F64
    }

    pub open spec fn spec_is_numeric(self) -> bool {
        self.spec_is_integer() || self.spec_is_float()
    }

    /// Whether this is a signed or unsigned integer type.
    pub fn is_integer(&self) -> (r: bool)
        ensures
            r == self.spec_is_integer(),
    {
        match self {
            BuiltinType::I8 | BuiltinType::I16 | BuiltinType::I32 | BuiltinType::I64
            | BuiltinType::U8 | BuiltinType::U16 | BuiltinType::U32 | BuiltinType::U64 => true,
            _ => false,
        }
    }

    /// Whether this is a floating-point type.
    pub fn is_float(&self) -> (r: bool)
        ensures
            r == self.spec_is_float(),
    {
        match self {
            BuiltinType::F32 | BuiltinType::F64 => true,
            _ => false,
        }
    }

    /// Whether this is `bool`.
    pub fn is_bool(&self) -> (r: bool)
        ensures
            r == (*self is Bool),
    {
        match self {
            BuiltinType::Bool => true,
            _ => false,
        }
    }

    /// Whether this is an integer or floating-point type.
    pub fn is_numeric(&self) -> (r: bool)
        ensures
            r == self.spec_is_numeric(),
    {
        self.is_integer() || self.is_float()
    }

    /// Whether this is a pointer type.
    pub fn is_pointer(&self) -> (r: bool)
        ensures
            r == (*self is Pointer),
    {
        match self {
            BuiltinType::Pointer(_) => true,
            _ => false,
        }
    }

    /// The type that a simple type annotation names, if it names one.
    pub fn from_simple_type(simple_type: &AstType) -> (r: Option<BuiltinType>)
        ensures
            r == spec_simple_type(simple_type.name.lexeme@),
    {
        simple_type_named(simple_type.name.lexeme.as_str())
    }

    /// The type that a type annotation stands for. A pointer annotation
    /// gives the type of what it points to.
    pub fn from_type_kind(type_kind: &TypeKind) -> (r: BuiltinType)
        requires
            kind_is_known(*type_kind),
        ensures
            r == spec_type_of_kind(*type_kind),
        decreases type_kind,
    {
        match type_kind {
            TypeKind::Simple(simple_type) => {
                let found = BuiltinType::from_simple_type(simple_type);
                found.unwrap()
            },
            TypeKind::Pointer(pointer_type) => {
                let inner_type = Self::from_type_kind(&pointer_type.inner_type);
                inner_type
            },
        }
    }
}

/// The type that each simple type name stands for.
pub open spec fn spec_simple_type(name: Seq<char>) -> Option<BuiltinType> {
    if name == "void"@ { Some(BuiltinType::Void) }
    else if name == "bool"@ { Some(BuiltinType::Bool) }
    else if name == "i8"@ { Some(BuiltinType::I8) }
    else if name == "i16"@ { Some(BuiltinType::I16) }
    else if name == "i32"@ { Some(BuiltinType::I32) }
    else if name == "i64"@ { Some(BuiltinType::I64) }
    else if name == "u8"@ { Some(BuiltinType::U8) }
    else if name == "u16"@ { Some(BuiltinType::U16) }
    else if name == "u32"@ { Some(BuiltinType::U32) }
    else if name == "u64"@ { Some(BuiltinType::U64) }
    else if name == "f32"@ { Some(BuiltinType::F32) }
    else if name == "f64"@ { Some(BuiltinType::F64) }
    else if name == "usize"@ { Some(BuiltinType::Usize) }
    else if name == "char"@ { Some(BuiltinType::Char) }
    else if name == "string"@ { Some(BuiltinType::String) }
    else { None }
}

/// The names of the types without parts, each with the type it names.
pub open spec fn simple_type_names() -> Seq<(Seq<char>, BuiltinType)> {
    seq![
        ("void"@, BuiltinType::Void),
        ("bool"@, BuiltinType::Bool),
        ("i8"@, BuiltinType::I8),
        ("i16"@, BuiltinType::I16),
        ("i32"@, BuiltinType::I32),
        ("i64"@, BuiltinType::I64),
        ("u8"@, BuiltinType::U8),
        ("u16"@, BuiltinType::U16),
        ("u32"@, BuiltinType::U32),
        ("u64"@, BuiltinType::U64),
        ("f32"@, BuiltinType::F32),
        ("f64"@, BuiltinType::F64),
        ("usize"@, BuiltinType::Usize),
        ("char"@, BuiltinType::Char),
        ("string"@, BuiltinType::String),
    ]
}

/// Each name in the list stands for its type.
pub proof fn law_simple_type_names(i: int)
    requires
        0 <= i < simple_type_names().len(),
    ensures
        spec_simple_type(simple_type_names()[i].0) == Some(simple_type_names()[i].1),
{
    reveal_strlit("void");
    reveal_strlit("bool");
    reveal_strlit("i8");
    reveal_strlit("i16");
    reveal_strlit("i32");
    reveal_strlit("i64");
    reveal_strlit("u8");
    reveal_strlit("u16");
    reveal_strlit("u32");
    reveal_strlit("u64");
    reveal_strlit("f32");
    reveal_strlit("f64");
    reveal_strlit("usize");
    reveal_strlit("char");
    reveal_strlit("string");
    assert("void"@ =~= seq!['v', 'o', 'i', 'd']);
    assert("bool"@ =~= seq!['b', 'o', 'o', 'l']);
    assert("i8"@ =~= seq!['i', '8']);
    assert("i16"@ =~= seq!['i', '1', '6']);
    assert("i32"@ =~= seq!['i', '3', '2']);
    assert("i64"@ =~= seq!['i', '6', '4']);
    assert("u8"@ =~= seq!['u', '8']);
    assert("u16"@ =~= seq!['u', '1', '6']);
    assert("u32"@ =~= seq!['u', '3', '2']);
    assert("u64"@ =~= seq!['u', '6', '4']);
    assert("f32"@ =~= seq!['f', '3', '2']);
    assert("f64"@ =~= seq!['f', '6', '4']);
    assert("usize"@ =~= seq!['u', 's', 'i', 'z', 'e']);
    assert("char"@ =~= seq!['c', 'h', 'a', 'r']);
    assert("string"@ =~= seq!['s', 't', 'r', 'i', 'n', 'g']);
}

/// The signed and unsigned integer types.
pub open spec fn integer_types() -> Set<BuiltinType> {
    set![
        BuiltinType::I8, BuiltinType::I16, BuiltinType::I32, BuiltinType::I64,
        BuiltinType::U8, BuiltinType::U16, BuiltinType::U32, BuiltinType::U64,
    ]
}

/// The floating-point types.
pub open spec fn float_types() -> Set<BuiltinType> {
    set![BuiltinType::F32, BuiltinType::F64]
}

/// The integer types are the signed and unsigned ones of 8 to 64 bits, the
/// floating-point types are `f32` and `f64`, and the numbers are both.
pub proof fn law_number_kinds(t: BuiltinType)
    ensures
        t.spec_is_integer() <==> integer_types().contains(t),
        t.spec_is_float() <==> float_types().contains(t),
        t.spec_is_numeric() <==> integer_types().contains(t) || float_types().contains(t),
{
}

/// Looks a simple type name up.
fn simple_type_named(name: &str) -> (r: Option<BuiltinType>)
    ensures
        r == spec_simple_type(name@),
{
    if str_eq(name, "void") { Some(BuiltinType::Void) }
    else if str_eq(name, "bool") { Some(BuiltinType::Bool) }
    else if str_eq(name, "i8") { Some(BuiltinType::I8) }
    else if str_eq(name, "i16") { Some(BuiltinType::I16) }
    else if str_eq(name, "i32") { Some(BuiltinType::I32) }
    else if str_eq(name, "i64") { Some(BuiltinType::I64) }
    else if str_eq(name, "u8") { Some(BuiltinType::U8) }
    else if str_eq(name, "u16") { Some(BuiltinType::U16) }
    else if str_eq(name, "u32") { Some(BuiltinType::U32) }
    else if str_eq(name, "u64") { Some(BuiltinType::U64) }
    else if str_eq(name, "f32") { Some(BuiltinType::F32) }
    else if str_eq(name, "f64") { Some(BuiltinType::F64) }
    else if str_eq(name, "usize") { Some(BuiltinType::Usize) }
    else if str_eq(name, "char") { Some(BuiltinType::Char) }
    else if str_eq(name, "string") { Some(BuiltinType::String) }
    else { None }
}

/// An annotation that names a basic type stands for that type: the
/// annotation's kind is one whose type is known, and its type is the one the
/// name gives, so `Type::from_type_annotation` answers that type with the
/// annotation's mutability.
pub proof fn lemma_simple_annotation_type(annotation: TypeAnnotation, b: BuiltinType)
    requires
        annotation.kind is Simple,
        spec_simple_type(annotation.kind->Simple_0.name.lexeme@) == Some(b),
    ensures
        kind_is_known(annotation.kind),
        spec_type_of_kind(annotation.kind) == b,
{
}

/// Whether every simple type named in the annotation is a known type.
pub open spec fn kind_is_known(kind: TypeKind) -> bool
    decreases kind,
{
    match kind {
        TypeKind::Simple(t) => spec_simple_type(t.name.lexeme@) is Some,
        TypeKind::Pointer(p) => kind_is_known(*p.inner_type),
    }
}

/// The type that an annotation stands for: a pointer annotation stands for
/// the type of what it points to.
pub open spec fn spec_type_of_kind(kind: TypeKind) -> BuiltinType
    decreases kind,
{
    match kind {
        TypeKind::Simple(t) => spec_simple_type(t.name.lexeme@)->0,
        TypeKind::Pointer(p) => spec_type_of_kind(*p.inner_type),
    }
}

/// The names that the language reserves for its basic types.
pub open spec fn spec_is_basic_type(name: Seq<char>) -> bool {
    ||| name == "i8"@
    ||| name == "i16"@
    ||| name == "i32"@
    ||| name == "i64"@
    ||| name == "u8"@
    ||| name == "u16"@
    ||| name == "u32"@
    ||| name == "u64"@
    ||| name == "f32"@
    ||| name == "f64"@
    ||| name == "usize"@
    ||| name == "char"@
    ||| name == "string"@
    ||| name == "cstring"@
    ||| name == "bool"@
}

/// Whether `name` is the name of a basic type.
pub fn is_basic_type(name: &str) -> (r: bool)
    ensures
        r == spec_is_basic_type(name@),
{
    str_eq(name, "i8") || str_eq(name, "i16") || str_eq(name, "i32") || str_eq(name, "i64")
        || str_eq(name, "u8") || str_eq(name, "u16") || str_eq(name, "u32") || str_eq(name, "u64")
        || str_eq(name, "f32") || str_eq(name, "f64") || str_eq(name, "usize") || str_eq(name, "char")
        || str_eq(name, "string") || str_eq(name, "cstring") || str_eq(name, "bool")
}

impl PointerType {
    pub fn new(inner_type: BuiltinType, mutable: bool) -> (r: Self)
        ensures
            r == (PointerType { inner_type, mutable }),
    {
        PointerType { inner_type, mutable }
    }
}

impl Type {
    /// The type of no value.
    pub fn void() -> (r: Self)
        ensures
            r == (Type { ttype: BuiltinType::Void, mutable: false }),
    {
        Type { ttype: BuiltinType::Void, mutable: false }
    }

    pub fn new(ttype: BuiltinType, mutable: bool) -> (r: Self)
        ensures
            r == (Type { ttype, mutable }),
    {
        Type { ttype, mutable }
    }

    /// A pointer to values of `ttype`'s type, through which they may be
    /// changed when `points_to_mut`.
    pub fn new_pointer(ttype: Type, points_to_mut: bool, mutable: bool) -> (r: Self)
        ensures
            r == (Type {
                ttype: BuiltinType::Pointer(Box::new(PointerType { inner_type: ttype.ttype, mutable: points_to_mut })),
                mutable,
            }),
    {
        Type {
            ttype: BuiltinType::Pointer(Box::new(PointerType::new(ttype.ttype, points_to_mut))),
            mutable,
        }
    }

    /// The type that a declaration's annotation gives.
    pub fn from_type_annotation(type_annotation: &TypeAnnotation) -> (r: Self)
        requires
            kind_is_known(type_annotation.kind),
        ensures
            r == (Type { ttype: spec_type_of_kind(type_annotation.kind), mutable: type_annotation.is_mut }),
    {
        let builtin_type = BuiltinType::from_type_kind(&type_annotation.kind);
        Type::new(builtin_type, type_annotation.is_mut)
    }
}


// ---------------------------------------------------------------------------
// Operator tables

/// The tables that give the type of a binary operator's result from the
/// types of its operands.
#[derive(Debug, Clone, Copy, PartialEq, Eq, Structural)]
pub enum BinaryOpTable {
    Plus,
    Sub,
    Mul,
    Div,
    Logical,
    Comparison,
}

pub const PLUS_OP_MAP: BinaryOpTable = BinaryOpTable::Plus;

pub const SUB_OP_MAP: BinaryOpTable = BinaryOpTable::Sub;

pub const MUL_OP_MAP: BinaryOpTable = BinaryOpTable::Mul;

pub const DIV_OP_MAP: BinaryOpTable = BinaryOpTable::Div;

pub const LOGICAL_OP_MAP: BinaryOpTable = BinaryOpTable::Logical;

pub const COMPARISON_OP_MAP: BinaryOpTable = BinaryOpTable::Comparison;

/// The tables that give the type of a unary operator's result from the type
/// of its operand.
#[derive(Debug, Clone, Copy, PartialEq, Eq, Structural)]
pub enum UnaryOpTable {
    Minus,
    Logical,
}

pub const UNARY_MINUS_OP_MAP: UnaryOpTable = UnaryOpTable::Minus;

pub const LOGICAL_UNARY_MAP: UnaryOpTable = UnaryOpTable::Logical;

/// The result of `+` on two operands of type `t`: the same type, but for
/// `i32`, whose sum is an `i64`.
pub open spec fn plus_result(t: BuiltinType) -> Option<BuiltinType> {
    match t {
        BuiltinType::I32 => Some(BuiltinType::I64),
        BuiltinType::I8 | BuiltinType::I16 | BuiltinType::I64 | BuiltinType::U8 | BuiltinType::U16
        | BuiltinType::U32 | BuiltinType::U64 | BuiltinType::F32 | BuiltinType::F64
        | BuiltinType::Usize | BuiltinType::Char | BuiltinType::String => Some(t),
        _ => None,
    }
}

/// The result of `-` on two operands of type `t`.
pub open spec fn sub_result(t: BuiltinType) -> Option<BuiltinType> {
    if t is String { None } else { plus_result(t) }
}

/// The result of `/` on two operands of type `t`.
pub open spec fn div_result(t: BuiltinType) -> Option<BuiltinType> {
    if t is Char { None } else { sub_result(t) }
}

/// The result of `*` on two operands of type `t`.
pub open spec fn mul_result(t: BuiltinType) -> Option<BuiltinType> {
    if t is Usize { None } else { div_result(t) }
}

/// Whether `t` is a type without parts, one of those that the tables list.
pub open spec fn is_simple(t: BuiltinType) -> bool {
    !(t is Pointer || t is Function || t is Struct)
}

impl BinaryOpTable {
    /// The type of the result for operands of types `lhs` and `rhs`.
    pub open spec fn spec_get(self, lhs: BuiltinType, rhs: BuiltinType) -> Option<BuiltinType> {
        let same = lhs == rhs && is_simple(lhs);
        match self {
            BinaryOpTable::Plus => if same { plus_result(lhs) } else { None },
            BinaryOpTable::Sub => if same { sub_result(lhs) } else { None },
            BinaryOpTable::Mul => if same {
                mul_result(lhs)
            } else if (lhs is Usize && rhs is String) || (lhs is String && rhs is Usize) {
                Some(BuiltinType::String)
            } else {
                None
            },
            BinaryOpTable::Div => if same { div_result(lhs) } else { None },
            BinaryOpTable::Logical => if lhs is Bool && rhs is Bool { Some(BuiltinType::Bool) } else { None },
            BinaryOpTable::Comparison => if same && !(lhs is Void) { Some(BuiltinType::Bool) } else { None },
        }
    }

    /// Looks the pair of operand types up.
    pub fn get(&self, lhs: &BuiltinType, rhs: &BuiltinType) -> (r: Option<BuiltinType>)
        ensures
            r == self.spec_get(*lhs, *rhs),
    {
        let same = same_simple_type(lhs, rhs);
        match self {
            BinaryOpTable::Plus => match same {
                Some(t) => arithmetic_result(&t, BinaryOpTable::Plus),
                None => None,
            },
            BinaryOpTable::Sub => match same {
                Some(t) => arithmetic_result(&t, BinaryOpTable::Sub),
                None => None,
            },
            BinaryOpTable::Mul => match same {
                Some(t) => arithmetic_result(&t, BinaryOpTable::Mul),
                None => match (lhs, rhs) {
                    (BuiltinType::Usize, BuiltinType::String) | (BuiltinType::String, BuiltinType::Usize) =>
                        Some(BuiltinType::String),
                    _ => None,
                },
            },
            BinaryOpTable::Div => match same {
                Some(t) => arithmetic_result(&t, BinaryOpTable::Div),
                None => None,
            },
            BinaryOpTable::Logical => match (lhs, rhs) {
                (BuiltinType::Bool, BuiltinType::Bool) => Some(BuiltinType::Bool),
                _ => None,
            },
            BinaryOpTable::Comparison => match same {
                Some(BuiltinType::Void) => None,
                Some(_) => Some(BuiltinType::Bool),
                None => None,
            },
        }
    }
}

/// `lhs` again when both operands are the same type without parts.
fn same_simple_type(lhs: &BuiltinType, rhs: &BuiltinType) -> (r: Option<BuiltinType>)
    ensures
        r == (if *lhs == *rhs && is_simple(*lhs) { Some(*lhs) } else { None }),
{
    match (lhs, rhs) {
        (BuiltinType::Void, BuiltinType::Void) => Some(BuiltinType::Void),
        (BuiltinType::Null, BuiltinType::Null) => Some(BuiltinType::Null),
        (BuiltinType::Bool, BuiltinType::Bool) => Some(BuiltinType::Bool),
        (BuiltinType::I8, BuiltinType::I8) => Some(BuiltinType::I8),
        (BuiltinType::I16, BuiltinType::I16) => Some(BuiltinType::I16),
        (BuiltinType::I32, BuiltinType::I32) => Some(BuiltinType::I32),
        (BuiltinType::I64, BuiltinType::I64) => Some(BuiltinType::I64),
        (BuiltinType::U8, BuiltinType::U8) => Some(BuiltinType::U8),
        (BuiltinType::U16, BuiltinType::U16) => Some(BuiltinType::U16),
        (BuiltinType::U32, BuiltinType::U32) => Some(BuiltinType::U32),
        (BuiltinType::U64, BuiltinType::U64) => Some(BuiltinType::U64),
        (BuiltinType::F32, BuiltinType::F32) => Some(BuiltinType::F32),
        (BuiltinType::F64, BuiltinType::F64) => Some(BuiltinType::F64),
        (BuiltinType::Usize, BuiltinType::Usize) => Some(BuiltinType::Usize),
        (BuiltinType::Char, BuiltinType::Char) => Some(BuiltinType::Char),
        (BuiltinType::String, BuiltinType::String) => Some(BuiltinType::String),
        _ => None,
    }
}

/// The result of an arithmetic operator of `table` on two operands of the
/// simple type `t`.
fn arithmetic_result(t: &BuiltinType, table: BinaryOpTable) -> (r: Option<BuiltinType>)
    requires
        is_simple(*t),
        table is Plus || table is Sub || table is Mul || table is Div,
    ensures
        r == (match table {
            BinaryOpTable::Plus => plus_result(*t),
            BinaryOpTable::Sub => sub_result(*t),
            BinaryOpTable::Mul => mul_result(*t),
            _ => div_result(*t),
        }),
{
    match t {
        BuiltinType::I8 => Some(BuiltinType::I8),
        BuiltinType::I16 => Some(BuiltinType::I16),
        BuiltinType::I32 => Some(BuiltinType::I64),
        BuiltinType::I64 => Some(BuiltinType::I64),
        BuiltinType::U8 => Some(BuiltinType::U8),
        BuiltinType::U16 => Some(BuiltinType::U16),
        BuiltinType::U32 => Some(BuiltinType::U32),
        BuiltinType::U64 => Some(BuiltinType::U64),
        BuiltinType::F32 => Some(BuiltinType::F32),
        BuiltinType::F64 => Some(BuiltinType::F64),
        BuiltinType::Usize => match table {
            BinaryOpTable::Mul => None,
            _ => Some(BuiltinType::Usize),
        },
        BuiltinType::Char => match table {
            BinaryOpTable::Plus | BinaryOpTable::Sub => Some(BuiltinType::Char),
            _ => None,
        },
        BuiltinType::String => match table {
            BinaryOpTable::Plus => Some(BuiltinType::String),
            _ => None,
        },
        _ => None,
    }
}

impl UnaryOpTable {
    /// The type of the result for an operand of type `operand`.
    pub open spec fn spec_get(self, operand: BuiltinType) -> Option<BuiltinType> {
        match self {
            UnaryOpTable::Minus => match operand {
                BuiltinType::I8 | BuiltinType::I16 | BuiltinType::I32 | BuiltinType::I64
                | BuiltinType::F32 | BuiltinType::F64 => Some(operand),
                _ => None,
            },
            UnaryOpTable::Logical => if operand is Bool { Some(BuiltinType::Bool) } else { None },
        }
    }

    /// Looks the operand's type up.
    pub fn get(&self, operand: &BuiltinType) -> (r: Option<BuiltinType>)
        ensures
            r == self.spec_get(*operand),
    {
        match self {
            UnaryOpTable::Minus => match operand {
                BuiltinType::I8 => Some(BuiltinType::I8),
                BuiltinType::I16 => Some(BuiltinType::I16),
                BuiltinType::I32 => Some(BuiltinType::I32),
                BuiltinType::I64 => Some(BuiltinType::I64),
                BuiltinType::F32 => Some(BuiltinType::F32),
                BuiltinType::F64 => Some(BuiltinType::F64),
                _ => None,
            },
            UnaryOpTable::Logical => match operand {
                BuiltinType::Bool => Some(BuiltinType::Bool),
                _ => None,
            },
        }
    }
}


// ---------------------------------------------------------------------------
// Typing operators

/// Whether `r` is the expected result `expected`, up to copies of types.
pub open spec fn same_result(r: Option<Type>, expected: Option<Type>) -> bool {
    match r {
        None => expected is None,
        Some(t) => expected matches Some(e) && same_value_type(t, e),
    }
}

/// A type with the given parts.
pub open spec fn type_of(ttype: BuiltinType, mutable: bool) -> Type {
    Type { ttype, mutable }
}

/// A pointer to values of type `inner`.
pub open spec fn pointer_to(inner: BuiltinType, points_to_mut: bool) -> BuiltinType {
    BuiltinType::Pointer(Box::new(PointerType { inner_type: inner, mutable: points_to_mut }))
}

/// Adding an integer to a pointer, in either order: never allowed, since a
/// type cannot be both an integer and a pointer.
pub open spec fn spec_match_pointer_binary_op_comm(lhs: Type, rhs: Type) -> Option<Type> {
    if !(lhs.ttype.spec_is_integer() && rhs.ttype is Pointer) || !(rhs.ttype.spec_is_integer()
        && lhs.ttype is Pointer) {
        None
    } else {
        Some(lhs)
    }
}

/// A pointer on the left and an integer on the right give the pointer's
/// type.
pub open spec fn spec_match_pointer_binary_op(lhs: Type, rhs: Type) -> Option<Type> {
    if !(lhs.ttype is Pointer) || !rhs.ttype.spec_is_integer() {
        None
    } else {
        Some(lhs)
    }
}

/// Two pointers to types that agree compare to a `bool`.
pub open spec fn spec_match_pointer_binary_comparison(lhs: Type, rhs: Type) -> Option<Type> {
    match (lhs.ttype, rhs.ttype) {
        (BuiltinType::Pointer(p_lhs), BuiltinType::Pointer(p_rhs)) =>
            if spec_inner_type_eq(p_lhs.inner_type, p_rhs.inner_type) {
                Some(type_of(BuiltinType::Bool, false))
            } else {
                None
            },
        _ => None,
    }
}

/// The table's result for the operands, as mutable as the left one.
pub open spec fn spec_match_binary_op_map(table: BinaryOpTable, lhs: Type, rhs: Type) -> Option<Type> {
    match table.spec_get(lhs.ttype, rhs.ttype) {
        Some(t) => Some(type_of(t, lhs.mutable)),
        None => None,
    }
}

/// The table's result for the operands in either order, as mutable as the
/// operand that came first in the order that matched.
pub open spec fn spec_match_binary_op_comm_map(table: BinaryOpTable, lhs: Type, rhs: Type) -> Option<Type> {
    match table.spec_get(lhs.ttype, rhs.ttype) {
        Some(t) => Some(type_of(t, lhs.mutable)),
        None => match table.spec_get(rhs.ttype, lhs.ttype) {
            Some(t) => Some(type_of(t, rhs.mutable)),
            None => None,
        },
    }
}

/// The arithmetic operators' table: for `+`, `-`, `*` and `/`, the pairs
/// of operand types on which the operator is defined, and the type of the
/// result.
pub open spec fn arithmetic_table(op: TokenType) -> Map<(BuiltinType, BuiltinType), BuiltinType> {
    match op {
        TokenType::Plus => map![
            (BuiltinType::I8, BuiltinType::I8) => BuiltinType::I8,
            (BuiltinType::I16, BuiltinType::I16) => BuiltinType::I16,
            (BuiltinType::I32, BuiltinType::I32) => BuiltinType::I64,
            (BuiltinType::I64, BuiltinType::I64) => BuiltinType::I64,
            (BuiltinType::U8, BuiltinType::U8) => BuiltinType::U8,
            (BuiltinType::U16, BuiltinType::U16) => BuiltinType::U16,
            (BuiltinType::U32, BuiltinType::U32) => BuiltinType::U32,
            (BuiltinType::U64, BuiltinType::U64) => BuiltinType::U64,
            (BuiltinType::F32, BuiltinType::F32) => BuiltinType::F32,
            (BuiltinType::F64, BuiltinType::F64) => BuiltinType::F64,
            (BuiltinType::Usize, BuiltinType::Usize) => BuiltinType::Usize,
            (BuiltinType::Char, BuiltinType::Char) => BuiltinType::Char,
            (BuiltinType::String, BuiltinType::String) => BuiltinType::String,
        ],
        TokenType::Minus => map![
            (BuiltinType::I8, BuiltinType::I8) => BuiltinType::I8,
            (BuiltinType::I16, BuiltinType::I16) => BuiltinType::I16,
            (BuiltinType::I32, BuiltinType::I32) => BuiltinType::I64,
            (BuiltinType::I64, BuiltinType::I64) => BuiltinType::I64,
            (BuiltinType::U8, BuiltinType::U8) => BuiltinType::U8,
            (BuiltinType::U16, BuiltinType::U16) => BuiltinType::U16,
            (BuiltinType::U32, BuiltinType::U32) => BuiltinType::U32,
            (BuiltinType::U64, BuiltinType::U64) => BuiltinType::U64,
            (BuiltinType::F32, BuiltinType::F32) => BuiltinType::F32,
            (BuiltinType::F64, BuiltinType::F64) => BuiltinType::F64,
            (BuiltinType::Usize, BuiltinType::Usize) => BuiltinType::Usize,
            (BuiltinType::Char, BuiltinType::Char) => BuiltinType::Char,
        ],
        TokenType::Star => map![
            (BuiltinType::I8, BuiltinType::I8) => BuiltinType::I8,
            (BuiltinType::I16, BuiltinType::I16) => BuiltinType::I16,
            (BuiltinType::I32, BuiltinType::I32) => BuiltinType::I64,
            (BuiltinType::I64, BuiltinType::I64) => BuiltinType::I64,
            (BuiltinType::U8, BuiltinType::U8) => BuiltinType::U8,
            (BuiltinType::U16, BuiltinType::U16) => BuiltinType::U16,
            (BuiltinType::U32, BuiltinType::U32) => BuiltinType::U32,
            (BuiltinType::U64, BuiltinType::U64) => BuiltinType::U64,
            (BuiltinType::F32, BuiltinType::F32) => BuiltinType::F32,
            (BuiltinType::F64, BuiltinType::F64) => BuiltinType::F64,
            (BuiltinType::Usize, BuiltinType::String) => BuiltinType::String,
            (BuiltinType::String, BuiltinType::Usize) => BuiltinType::String,
        ],
        TokenType::Slash => map![
            (BuiltinType::I8, BuiltinType::I8) => BuiltinType::I8,
            (BuiltinType::I16, BuiltinType::I16) => BuiltinType::I16,
            (BuiltinType::I32, BuiltinType::I32) => BuiltinType::I64,
            (BuiltinType::I64, BuiltinType::I64) => BuiltinType::I64,
            (BuiltinType::U8, BuiltinType::U8) => BuiltinType::U8,
            (BuiltinType::U16, BuiltinType::U16) => BuiltinType::U16,
            (BuiltinType::U32, BuiltinType::U32) => BuiltinType::U32,
            (BuiltinType::U64, BuiltinType::U64) => BuiltinType::U64,
            (BuiltinType::F32, BuiltinType::F32) => BuiltinType::F32,
            (BuiltinType::F64, BuiltinType::F64) => BuiltinType::F64,
            (BuiltinType::Usize, BuiltinType::Usize) => BuiltinType::Usize,
        ],
        _ => Map::empty(),
    }
}

/// The type of `lhs op rhs` for an arithmetic operator is what the table
/// gives for the two operand types, in this order or, failing that, in the
/// other, as changeable as the operand that came first in the order that
/// matched; on any other pair of types the operator is not defined.
pub proof fn law_arithmetic_follows_table(op: TokenType, lhs: Type, rhs: Type)
    requires
        op is Plus || op is Minus || op is Star || op is Slash,
    ensures
        spec_match_binary_op(op, lhs, rhs) == (if arithmetic_table(op).contains_key((lhs.ttype, rhs.ttype)) {
            Some(type_of(arithmetic_table(op)[(lhs.ttype, rhs.ttype)], lhs.mutable))
        } else if arithmetic_table(op).contains_key((rhs.ttype, lhs.ttype)) {
            Some(type_of(arithmetic_table(op)[(rhs.ttype, lhs.ttype)], rhs.mutable))
        } else {
            None
        }),
{
}

/// The type of `lhs op= rhs` for an arithmetic assignment is what the table
/// of its operator gives for the two operand types in this order, as
/// changeable as `lhs`; failing that, a pointer moved by an integer keeps its
/// type; on any other pair of types the assignment is not defined.
pub proof fn law_arithmetic_assignment_follows_table(op: TokenType, lhs: Type, rhs: Type)
    requires
        op is PlusEquals || op is MinusEquals || op is StarEquals || op is SlashEquals,
    ensures
        ({
            let table = arithmetic_table(match op {
                TokenType::PlusEquals => TokenType::Plus,
                TokenType::MinusEquals => TokenType::Minus,
                TokenType::StarEquals => TokenType::Star,
                _ => TokenType::Slash,
            });
            spec_match_inplace_assignment_op(op, lhs, rhs) == (if table.contains_key((lhs.ttype, rhs.ttype)) {
                Some(type_of(table[(lhs.ttype, rhs.ttype)], lhs.mutable))
            } else if lhs.ttype is Pointer && rhs.ttype.spec_is_integer() {
                Some(lhs)
            } else {
                None
            })
        }),
{
}

/// The first of two results that is there.
pub open spec fn or_else(first: Option<Type>, second: Option<Type>) -> Option<Type> {
    if first is Some { first } else { second }
}

/// The type of `lhs op rhs`, where it has one.
pub open spec fn spec_match_binary_op(op: TokenType, lhs: Type, rhs: Type) -> Option<Type> {
    match op {
        TokenType::Plus => or_else(spec_match_binary_op_comm_map(BinaryOpTable::Plus, lhs, rhs),
            spec_match_pointer_binary_op_comm(lhs, rhs)),
        TokenType::Minus => or_else(spec_match_binary_op_comm_map(BinaryOpTable::Sub, lhs, rhs),
            spec_match_pointer_binary_op_comm(lhs, rhs)),
        TokenType::Star => spec_match_binary_op_comm_map(BinaryOpTable::Mul, lhs, rhs),
        TokenType::Slash => spec_match_binary_op_comm_map(BinaryOpTable::Div, lhs, rhs),
        TokenType::EqualsEquals | TokenType::NotEquals | TokenType::Less | TokenType::LessEqual
        | TokenType::Greater | TokenType::GreaterEqual => or_else(
            spec_match_pointer_binary_comparison(lhs, rhs),
            match BinaryOpTable::Comparison.spec_get(lhs.ttype, rhs.ttype) {
                Some(t) => Some(type_of(t, false)),
                None => None,
            },
        ),
        TokenType::LogicalOr | TokenType::LogicalAnd =>
            spec_match_binary_op_comm_map(BinaryOpTable::Logical, lhs, rhs),
        _ => None,
    }
}

/// The type of `lhs op= rhs`, where it has one.
pub open spec fn spec_match_inplace_assignment_op(op: TokenType, lhs: Type, rhs: Type) -> Option<Type> {
    let table = match op {
        TokenType::PlusEquals => Some(BinaryOpTable::Plus),
        TokenType::MinusEquals => Some(BinaryOpTable::Sub),
        TokenType::StarEquals => Some(BinaryOpTable::Mul),
        TokenType::SlashEquals => Some(BinaryOpTable::Div),
        TokenType::BinaryAndEquals | TokenType::BinaryOrEquals => Some(BinaryOpTable::Logical),
        _ => None,
    };
    match table {
        Some(table) => or_else(spec_match_binary_op_map(table, lhs, rhs), spec_match_pointer_binary_op(lhs, rhs)),
        None => None,
    }
}

/// The type of `op rhs`, where it has one.
pub open spec fn spec_match_unary_op(op: TokenType, rhs: Type) -> Option<Type> {
    match op {
        TokenType::Minus => match UnaryOpTable::Minus.spec_get(rhs.ttype) {
            Some(t) => Some(type_of(t, rhs.mutable)),
            None => None,
        },
        TokenType::Star => match rhs.ttype {
            BuiltinType::Pointer(pointer) => Some(type_of(pointer.inner_type, pointer.mutable)),
            _ => None,
        },
        TokenType::BinaryAnd => Some(type_of(pointer_to(rhs.ttype, false), false)),
        TokenType::MutRef => Some(type_of(pointer_to(rhs.ttype, true), true)),
        TokenType::LogicalNot => if rhs.ttype is Bool { Some(type_of(BuiltinType::Bool, rhs.mutable)) } else { None },
        _ => None,
    }
}

/// The types whose values can be negated: the signed integers and the
/// floating-point numbers.
pub open spec fn negatable_types() -> Set<BuiltinType> {
    set![BuiltinType::I8, BuiltinType::I16, BuiltinType::I32, BuiltinType::I64, BuiltinType::F32, BuiltinType::F64]
}

/// The comparison operators.
pub open spec fn comparison_operators() -> Seq<TokenType> {
    seq![
        TokenType::EqualsEquals,
        TokenType::NotEquals,
        TokenType::Less,
        TokenType::LessEqual,
        TokenType::Greater,
        TokenType::GreaterEqual,
    ]
}

/// The types of the operators on one operand: `-` keeps the type of a
/// signed integer or a floating-point number and is defined on no other;
/// `!` takes and gives a `bool`; `*` reads through a pointer, giving the
/// type pointed to; `&` and `&mut` give a pointer to the operand's type.
pub proof fn law_unary_operator_types(op: TokenType, rhs: Type)
    ensures
        op is Minus ==> spec_match_unary_op(op, rhs) == (if negatable_types().contains(rhs.ttype) {
            Some(type_of(rhs.ttype, rhs.mutable))
        } else {
            None
        }),
        op is LogicalNot ==> spec_match_unary_op(op, rhs) == (if rhs.ttype is Bool {
            Some(type_of(BuiltinType::Bool, rhs.mutable))
        } else {
            None
        }),
        op is Star ==> spec_match_unary_op(op, rhs) == (match rhs.ttype {
            BuiltinType::Pointer(p) => Some(type_of(p.inner_type, p.mutable)),
            _ => None,
        }),
        op is BinaryAnd ==> spec_match_unary_op(op, rhs) == Some(type_of(pointer_to(rhs.ttype, false), false)),
        op is MutRef ==> spec_match_unary_op(op, rhs) == Some(type_of(pointer_to(rhs.ttype, true), true)),
{
}

/// Comparing two values of one type without parts, other than `void`,
/// gives a `bool` that cannot be changed; `&&` and `||` on two `bool`s
/// give a `bool` as changeable as the left operand.
pub proof fn law_comparison_and_logic_give_bool(op: TokenType, lhs: Type, rhs: Type)
    ensures
        comparison_operators().contains(op) && lhs.ttype == rhs.ttype && is_simple(lhs.ttype) && !(lhs.ttype is Void)
            ==> spec_match_binary_op(op, lhs, rhs) == Some(type_of(BuiltinType::Bool, false)),
        (op is LogicalAnd || op is LogicalOr) && lhs.ttype is Bool && rhs.ttype is Bool
            ==> spec_match_binary_op(op, lhs, rhs) == Some(type_of(BuiltinType::Bool, lhs.mutable)),
{
}

/// Whether values of type `t` convert to and from each other with `as`
/// without further checks: characters, booleans and numbers.
pub open spec fn is_scalar(t: BuiltinType) -> bool {
    t is Char || t is Bool || t.spec_is_numeric()
}

/// Whether `lhs as target_type` is allowed.
pub open spec fn spec_verify_cast_operator(lhs: Type, target_type: Type) -> bool {
    if is_scalar(lhs.ttype) && is_scalar(target_type.ttype) {
        true
    } else {
        match lhs.ttype {
            BuiltinType::Pointer(lhs_pointer) => if target_type.ttype.spec_is_integer() {
                true
            } else {
                match target_type.ttype {
                    BuiltinType::Pointer(target_pointer) => target_pointer.inner_type is Void
                        || type_size(lhs_pointer.inner_type) == type_size(target_pointer.inner_type),
                    _ => false,
                }
            },
            _ => false,
        }
    }
}

/// `as` converts freely between booleans, characters, integers and
/// floating-point numbers; a pointer converts to any integer type; a value
/// of any other type that is not a pointer converts to nothing.
pub proof fn law_casts(lhs: Type, target_type: Type)
    ensures
        ({
            let scalars = integer_types().union(float_types()).insert(BuiltinType::Bool).insert(BuiltinType::Char);
            &&& scalars.contains(lhs.ttype) && scalars.contains(target_type.ttype)
                ==> spec_verify_cast_operator(lhs, target_type)
            &&& lhs.ttype is Pointer && integer_types().contains(target_type.ttype)
                ==> spec_verify_cast_operator(lhs, target_type)
            &&& !scalars.contains(lhs.ttype) && !(lhs.ttype is Pointer)
                ==> !spec_verify_cast_operator(lhs, target_type)
        }),
{
}

/// Whether deciding a cast between the two types needs the sizes of what
/// their pointers point to, and those have sizes.
pub open spec fn cast_sizes_known(lhs: Type, target_type: Type) -> bool {
    match (lhs.ttype, target_type.ttype) {
        (BuiltinType::Pointer(lhs_pointer), BuiltinType::Pointer(target_pointer)) =>
            !(target_pointer.inner_type is Void) ==> type_has_size(lhs_pointer.inner_type)
                && type_has_size(target_pointer.inner_type),
        _ => true,
    }
}

/// Adding an integer and a pointer in either order; no pair of types
/// passes the test, so the answer is always `None`.
pub fn match_pointer_binary_op_comm(lhs: &Type, rhs: &Type) -> (r: Option<Type>)
    ensures
        same_result(r, spec_match_pointer_binary_op_comm(*lhs, *rhs)),
        r is None,
{
    if !(lhs.ttype.is_integer() && rhs.ttype.is_pointer()) || !(rhs.ttype.is_integer() && lhs.ttype.is_pointer()) {
        return None;
    }
    Some(lhs.clone())
}

/// A pointer plus or minus an integer keeps the pointer's type.
pub fn match_pointer_binary_op(lhs: &Type, rhs: &Type) -> (r: Option<Type>)
    ensures
        same_result(r, spec_match_pointer_binary_op(*lhs, *rhs)),
{
    if !lhs.ttype.is_pointer() || !rhs.ttype.is_integer() {
        return None;
    }
    Some(lhs.clone())
}

/// Two pointers compare when the types they point to agree.
pub fn match_pointer_binary_comparison(lhs: &Type, rhs: &Type) -> (r: Option<Type>)
    ensures
        r == spec_match_pointer_binary_comparison(*lhs, *rhs),
{
    match (&lhs.ttype, &rhs.ttype) {
        (BuiltinType::Pointer(p_lhs), BuiltinType::Pointer(p_rhs)) => {
            if p_lhs.inner_type_eq(p_rhs) {
                Some(Type::new(BuiltinType::Bool, false))
            } else {
                None
            }
        },
        _ => None,
    }
}

fn match_binary_op_map(map: &BinaryOpTable, lhs: &Type, rhs: &Type) -> (r: Option<Type>)
    ensures
        r == spec_match_binary_op_map(*map, *lhs, *rhs),
{
    match map.get(&lhs.ttype, &rhs.ttype) {
        Some(result_type) => Some(Type::new(result_type, lhs.mutable)),
        None => None,
    }
}

fn match_binary_op_comm_map(map: &BinaryOpTable, lhs: &Type, rhs: &Type) -> (r: Option<Type>)
    ensures
        r == spec_match_binary_op_comm_map(*map, *lhs, *rhs),
{
    match map.get(&lhs.ttype, &rhs.ttype) {
        Some(result_type) => Some(Type::new(result_type, lhs.mutable)),
        None => match map.get(&rhs.ttype, &lhs.ttype) {
            Some(result_type) => Some(Type::new(result_type, rhs.mutable)),
            None => None,
        },
    }
}

fn match_binary_op_impl(map: &BinaryOpTable, lhs: &Type, rhs: &Type) -> (r: Option<Type>)
    ensures
        same_result(r, or_else(spec_match_binary_op_map(*map, *lhs, *rhs), spec_match_pointer_binary_op(*lhs, *rhs))),
{
    let found = match_binary_op_map(map, lhs, rhs);
    proof {
        if found is Some {
            lemma_same_type_reflexive(found->0.ttype);
        }
    }
    if found.is_some() {
        found
    } else {
        match_pointer_binary_op(lhs, rhs)
    }
}

fn match_binary_op_impl_comm(map: &BinaryOpTable, lhs: &Type, rhs: &Type) -> (r: Option<Type>)
    ensures
        same_result(r, or_else(spec_match_binary_op_comm_map(*map, *lhs, *rhs), spec_match_pointer_binary_op_comm(*lhs, *rhs))),
{
    let found = match_binary_op_comm_map(map, lhs, rhs);
    proof {
        if found is Some {
            lemma_same_type_reflexive(found->0.ttype);
        }
    }
    if found.is_some() {
        found
    } else {
        match_pointer_binary_op_comm(lhs, rhs)
    }
}

/// The type of the result of a binary operator, or `None` where the
/// operator does not apply to operands of these types.
pub fn match_binary_op(op: TokenType, lhs: &Type, rhs: &Type) -> (r: Option<Type>)
    ensures
        same_result(r, spec_match_binary_op(op, *lhs, *rhs)),
{
    match op {
        TokenType::Plus => match_binary_op_impl_comm(&PLUS_OP_MAP, lhs, rhs),
        TokenType::Minus => match_binary_op_impl_comm(&SUB_OP_MAP, lhs, rhs),
        TokenType::Star => {
            let r = match_binary_op_comm_map(&MUL_OP_MAP, lhs, rhs);
            proof {
                if r is Some {
                    lemma_same_type_reflexive(r->0.ttype);
                }
            }
            r
        },
        TokenType::Slash => {
            let r = match_binary_op_comm_map(&DIV_OP_MAP, lhs, rhs);
            proof {
                if r is Some {
                    lemma_same_type_reflexive(r->0.ttype);
                }
            }
            r
        },
        TokenType::EqualsEquals | TokenType::NotEquals | TokenType::Less | TokenType::LessEqual
        | TokenType::Greater | TokenType::GreaterEqual => {
            let r = match match_pointer_binary_comparison(lhs, rhs) {
                Some(t) => Some(t),
                None => match COMPARISON_OP_MAP.get(&lhs.ttype, &rhs.ttype) {
                    Some(bt) => Some(Type::new(bt, false)),
                    None => None,
                },
            };
            proof {
                if r is Some {
                    lemma_same_type_reflexive(r->0.ttype);
                }
            }
            r
        },
        TokenType::LogicalOr | TokenType::LogicalAnd => {
            let r = match_binary_op_comm_map(&LOGICAL_OP_MAP, lhs, rhs);
            proof {
                if r is Some {
                    lemma_same_type_reflexive(r->0.ttype);
                }
            }
            r
        },
        _ => None,
    }
}

/// The type of the result of an assignment operator such as `+=`, or
/// `None` where it does not apply to operands of these types.
pub fn match_inplace_assignment_op(op: TokenType, lhs: &Type, rhs: &Type) -> (r: Option<Type>)
    ensures
        same_result(r, spec_match_inplace_assignment_op(op, *lhs, *rhs)),
{
    match op {
        TokenType::PlusEquals => match_binary_op_impl(&PLUS_OP_MAP, lhs, rhs),
        TokenType::MinusEquals => match_binary_op_impl(&SUB_OP_MAP, lhs, rhs),
        TokenType::StarEquals => match_binary_op_impl(&MUL_OP_MAP, lhs, rhs),
        TokenType::SlashEquals => match_binary_op_impl(&DIV_OP_MAP, lhs, rhs),
        TokenType::BinaryAndEquals | TokenType::BinaryOrEquals => match_binary_op_impl(&LOGICAL_OP_MAP, lhs, rhs),
        _ => None,
    }
}

/// The type of the result of a unary operator, or `None` where it does not
/// apply to an operand of this type.
pub fn match_unary_op(op: TokenType, rhs: &Type) -> (r: Option<Type>)
    ensures
        same_result(r, spec_match_unary_op(op, *rhs)),
{
    match op {
        TokenType::Minus => {
            let r = match UNARY_MINUS_OP_MAP.get(&rhs.ttype) {
                Some(builtin_type) => Some(Type::new(builtin_type, rhs.mutable)),
                None => None,
            };
            proof {
                if r is Some {
                    lemma_same_type_reflexive(r->0.ttype);
                }
            }
            r
        },
        TokenType::Star => match &rhs.ttype {
            BuiltinType::Pointer(pointer) => Some(Type::new(pointer.inner_type.clone(), pointer.mutable)),
            _ => None,
        },
        TokenType::BinaryAnd => Some(Type::new(
            BuiltinType::Pointer(Box::new(PointerType::new(rhs.ttype.clone(), false))),
            false,
        )),
        TokenType::MutRef => Some(Type::new(
            BuiltinType::Pointer(Box::new(PointerType::new(rhs.ttype.clone(), true))),
            true,
        )),
        TokenType::LogicalNot => if rhs.ttype.is_bool() {
            Some(Type::new(BuiltinType::Bool, rhs.mutable))
        } else {
            None
        },
        _ => None,
    }
}

/// Whether `lhs as target_type` is allowed: between characters, booleans
/// and numbers; from a pointer to an integer; and between pointers when the
/// target points to `void` or to a type of the same size.
pub fn verify_cast_operator(lhs: &Type, target_type: &Type) -> (r: bool)
    requires
        cast_sizes_known(*lhs, *target_type),
    ensures
        r == spec_verify_cast_operator(*lhs, *target_type),
{
    let lhs_scalar = match lhs.ttype {
        BuiltinType::Char | BuiltinType::Bool => true,
        _ => lhs.ttype.is_numeric(),
    };
    let target_scalar = match target_type.ttype {
        BuiltinType::Char | BuiltinType::Bool => true,
        _ => target_type.ttype.is_numeric(),
    };
    if lhs_scalar && target_scalar {
        return true;
    }
    let lhs_pointer = match &lhs.ttype {
        BuiltinType::Pointer(p) => p,
        _ => {
            return false;
        },
    };
    if target_type.ttype.is_integer() {
        return true;
    }
    let target_pointer = match &target_type.ttype {
        BuiltinType::Pointer(p) => p,
        _ => {
            return false;
        },
    };
    match target_pointer.inner_type {
        BuiltinType::Void => true,
        _ => lhs_pointer.inner_type.size() == target_pointer.inner_type.size(),
    }
}


// ---------------------------------------------------------------------------
// Laws of the operator typing

/// Dereferencing the address of a value gives back the value's type: not
/// mutable through `&`, mutable through `&mut`.
pub proof fn lemma_deref_undoes_address_of(t: Type)
    ensures
        spec_match_unary_op(TokenType::Star, spec_match_unary_op(TokenType::BinaryAnd, t)->0)
            == Some(type_of(t.ttype, false)),
        spec_match_unary_op(TokenType::Star, spec_match_unary_op(TokenType::MutRef, t)->0)
            == Some(type_of(t.ttype, true)),
{
}

/// The commutative operators `+`, `-`, `*`, `/`, `||` and `&&` accept their
/// operands in either order, and give a result of the same type both ways.
pub proof fn lemma_commutative_ops_symmetric(op: TokenType, a: Type, b: Type)
    requires
        op is Plus || op is Minus || op is Star || op is Slash || op is LogicalOr || op is LogicalAnd,
    ensures
        spec_match_binary_op(op, a, b) is Some <==> spec_match_binary_op(op, b, a) is Some,
        spec_match_binary_op(op, a, b) is Some ==>
            spec_match_binary_op(op, a, b)->0.ttype == spec_match_binary_op(op, b, a)->0.ttype,
{
}

/// Comparisons, where they apply, always give a `bool` that may not be
/// changed.
pub proof fn lemma_comparison_gives_bool(op: TokenType, a: Type, b: Type)
    requires
        op is EqualsEquals || op is NotEquals || op is Less || op is LessEqual || op is Greater
            || op is GreaterEqual,
        spec_match_binary_op(op, a, b) is Some,
    ensures
        spec_match_binary_op(op, a, b) == Some(type_of(BuiltinType::Bool, false)),
{
}

/// Characters, booleans and numbers can be cast to one another, and a
/// pointer can be cast to any integer, to a pointer to `void` and to its
/// own type.
pub proof fn lemma_casts_allowed(a: Type, b: Type)
    ensures
        is_scalar(a.ttype) && is_scalar(b.ttype) ==> spec_verify_cast_operator(a, b),
        a.ttype is Pointer && b.ttype.spec_is_integer() ==> spec_verify_cast_operator(a, b),
        a.ttype is Pointer && (b.ttype matches BuiltinType::Pointer(q) && q.inner_type is Void)
            ==> spec_verify_cast_operator(a, b),
        a.ttype is Pointer ==> spec_verify_cast_operator(a, a),
{
}


// ---------------------------------------------------------------------------
// Writing types out

/// How a type is written in messages.
pub open spec fn display_text(t: BuiltinType) -> Seq<char>
    decreases t,
{
    match t {
        BuiltinType::Void => "void"@,
        BuiltinType::Null => "null"@,
        BuiltinType::Bool => "bool"@,
        BuiltinType::I8 => "i8"@,
        BuiltinType::I16 => "i16"@,
        BuiltinType::I32 => "i32"@,
        BuiltinType::I64 => "i64"@,
        BuiltinType::U8 => "u8"@,
        BuiltinType::U16 => "u16"@,
        BuiltinType::U32 => "u32"@,
        BuiltinType::U64 => "u64"@,
        BuiltinType::F32 => "f32"@,
        BuiltinType::F64 => "f64"@,
        BuiltinType::Usize => "usize"@,
        BuiltinType::Char => "char"@,
        BuiltinType::String => "const char*"@,
        BuiltinType::Pointer(p) => (if p.mutable { ""@ } else { "const"@ }) + display_text(p.inner_type) + "*"@,
        BuiltinType::Function(f) => "FunctionType["@ + types_display_text(f.arguments@) + "]"@,
        BuiltinType::Struct(s) => "struct "@ + ("struct "@ + s.name@ + "{"@ + fields_display_text(s.fields@) + "}"@),
    }
}

/// The types of the list written one after the other, separated by `, `.
pub open spec fn types_display_text(types: Seq<BuiltinType>) -> Seq<char>
    decreases types,
{
    if types.len() == 0 {
        Seq::empty()
    } else if types.len() == 1 {
        display_text(types[0])
    } else {
        types_display_text(types.drop_last()) + ", "@ + display_text(types.last())
    }
}

/// How a value's type is written: `mut ` or `const`, a space, and the type.
pub open spec fn value_type_display_text(t: Type) -> Seq<char> {
    (if t.mutable { "mut "@ } else { "const"@ }) + " "@ + display_text(t.ttype)
}

/// The fields of a struct written as `name: type`, separated by `, `.
pub open spec fn fields_display_text(fields: Seq<(String, Type)>) -> Seq<char>
    decreases fields,
{
    if fields.len() == 0 {
        Seq::empty()
    } else if fields.len() == 1 {
        fields[0].0@ + ": "@ + ((if fields[0].1.mutable { "mut "@ } else { "const"@ }) + " "@
            + display_text(fields[0].1.ttype))
    } else {
        fields_display_text(fields.drop_last()) + ", "@ + (fields.last().0@ + ": "@
            + ((if fields.last().1.mutable { "mut "@ } else { "const"@ }) + " "@
            + display_text(fields.last().1.ttype)))
    }
}

/// Writes the type as [`display_text`] says.
fn write_display(t: &BuiltinType, out: &mut String)
    ensures
        final(out)@ == old(out)@ + display_text(*t),
    decreases t,
{
    match t {
        BuiltinType::Void => push_str(out, "void"),
        BuiltinType::Null => push_str(out, "null"),
        BuiltinType::Bool => push_str(out, "bool"),
        BuiltinType::I8 => push_str(out, "i8"),
        BuiltinType::I16 => push_str(out, "i16"),
        BuiltinType::I32 => push_str(out, "i32"),
        BuiltinType::I64 => push_str(out, "i64"),
        BuiltinType::U8 => push_str(out, "u8"),
        BuiltinType::U16 => push_str(out, "u16"),
        BuiltinType::U32 => push_str(out, "u32"),
        BuiltinType::U64 => push_str(out, "u64"),
        BuiltinType::F32 => push_str(out, "f32"),
        BuiltinType::F64 => push_str(out, "f64"),
        BuiltinType::Usize => push_str(out, "usize"),
        BuiltinType::Char => push_str(out, "char"),
        BuiltinType::String => push_str(out, "const char*"),
        BuiltinType::Pointer(p) => {
            if p.mutable {
                push_str(out, "");
            } else {
                push_str(out, "const");
            }
            write_display(&p.inner_type, out);
            push_str(out, "*");
        },
        BuiltinType::Function(f) => {
            push_str(out, "FunctionType[");
            write_types_display(&f.arguments, out);
            push_str(out, "]");
        },
        BuiltinType::Struct(s) => {
            push_str(out, "struct ");
            push_str(out, "struct ");
            push_str(out, s.name.as_str());
            push_str(out, "{");
            write_fields_display(&s.fields, out);
            push_str(out, "}");
        },
    }
}

/// Writes the types as [`types_display_text`] says.
fn write_types_display(types: &Vec<BuiltinType>, out: &mut String)
    ensures
        final(out)@ == old(out)@ + types_display_text(types@),
    decreases types,
{
    let mut i: usize = 0;
    while i < types.len()
        invariant
            i <= types@.len(),
            out@ == old(out)@ + types_display_text(types@.take(i as int)),
        decreases types@.len() - i,
    {
        proof {
            assert(types@.take(i + 1).drop_last() == types@.take(i as int));
            assert(decreases_to!(types => types@[i as int]));
        }
        if i > 0 {
            push_str(out, ", ");
        }
        write_display(&types[i], out);
        i = i + 1;
    }
    proof {
        assert(types@.take(i as int) == types@);
    }
}

/// Writes one field as `name: ` and its type with its mutability.
fn write_field_display(field: &(String, Type), out: &mut String)
    ensures
        final(out)@ == old(out)@ + (field.0@ + ": "@ + ((if field.1.mutable { "mut "@ } else { "const"@ })
            + " "@ + display_text(field.1.ttype))),
    decreases field,
{
    let ghost start = out@;
    push_str(out, field.0.as_str());
    push_str(out, ": ");
    if field.1.mutable {
        push_str(out, "mut ");
    } else {
        push_str(out, "const");
    }
    push_str(out, " ");
    proof {
        assert(decreases_to!(field => field.1.ttype));
    }
    write_display(&field.1.ttype, out);
    proof {
        let m = if field.1.mutable { "mut "@ } else { "const"@ };
        assert(out@ =~= start + (field.0@ + ": "@ + (m + " "@ + display_text(field.1.ttype))));
    }
}

/// Writes the fields as [`fields_display_text`] says.
fn write_fields_display(fields: &Vec<(String, Type)>, out: &mut String)
    ensures
        final(out)@ == old(out)@ + fields_display_text(fields@),
    decreases fields,
{
    let mut i: usize = 0;
    while i < fields.len()
        invariant
            i <= fields@.len(),
            out@ == old(out)@ + fields_display_text(fields@.take(i as int)),
        decreases fields@.len() - i,
    {
        proof {
            assert(fields@.take(i + 1).drop_last() == fields@.take(i as int));
            assert(decreases_to!(fields => fields@[i as int]));
        }
        let ghost before = out@;
        if i > 0 {
            push_str(out, ", ");
        }
        write_field_display(&fields[i], out);
        proof {
            if i == 0 {
                assert(out@ =~= before + fields_display_text(fields@.take(1)));
            } else {
                let f = fields@[i as int];
                let text = f.0@ + ": "@ + ((if f.1.mutable { "mut "@ } else { "const"@ }) + " "@ + display_text(f.1.ttype));
                assert(fields_display_text(fields@.take(i + 1)) == fields_display_text(fields@.take(i as int)) + ", "@ + text);
                assert(out@ =~= old(out)@ + fields_display_text(fields@.take(i + 1)));
            }
        }
        i = i + 1;
    }
    proof {
        assert(fields@.take(i as int) == fields@);
    }
}

impl BuiltinType {
    /// The type as messages write it.
    pub fn display_string(&self) -> (r: String)
        ensures
            r@ == display_text(*self),
    {
        let mut out = String::new();
        write_display(self, &mut out);
        out
    }
}

impl Type {
    /// The type as messages write it, with its mutability.
    pub fn display_string(&self) -> (r: String)
        ensures
            r@ == value_type_display_text(*self),
    {
        let mut out = String::new();
        if self.mutable {
            push_str(&mut out, "mut ");
        } else {
            push_str(&mut out, "const");
        }
        push_str(&mut out, " ");
        write_display(&self.ttype, &mut out);
        out
    }
}

impl FunctionType {
    /// The function type as messages write it: its argument types.
    pub fn debug_string(&self) -> (r: String)
        ensures
            r@ == "FunctionType["@ + types_display_text(self.arguments@) + "]"@,
    {
        let mut out = String::new();
        push_str(&mut out, "FunctionType[");
        write_types_display(&self.arguments, &mut out);
        push_str(&mut out, "]");
        out
    }
}

/// Types that are the same are written the same way.
pub proof fn lemma_same_type_same_display(a: BuiltinType, b: BuiltinType)
    requires
        same_type(a, b),
    ensures
        display_text(a) == display_text(b),
    decreases a,
{
    match a {
        BuiltinType::Pointer(x) => {
            let y = b->Pointer_0;
            lemma_same_type_same_display(x.inner_type, y.inner_type);
        },
        BuiltinType::Function(x) => {
            let y = b->Function_0;
            lemma_same_types_same_display(x.arguments@, y.arguments@);
        },
        BuiltinType::Struct(x) => {
            let y = b->Struct_0;
            lemma_same_fields_same_display(x.fields@, y.fields@);
        },
        _ => {},
    }
}

/// Lists of the same types are written the same way.
pub proof fn lemma_same_types_same_display(a: Seq<BuiltinType>, b: Seq<BuiltinType>)
    requires
        same_types(a, b),
    ensures
        types_display_text(a) == types_display_text(b),
    decreases a,
{
    lemma_same_types_prefix(a, b, 0);
    if a.len() > 0 {
        lemma_same_types_same_display(a.drop_last(), b.drop_last());
        lemma_same_type_same_display(a.last(), b.last());
        if a.len() == 1 {
            assert(a[0] == a.last());
            assert(b[0] == b.last());
        }
    }
}

/// Lists of the same fields are written the same way.
pub proof fn lemma_same_fields_same_display(a: Seq<(String, Type)>, b: Seq<(String, Type)>)
    requires
        same_fields(a, b),
    ensures
        fields_display_text(a) == fields_display_text(b),
    decreases a,
{
    lemma_same_fields_prefix(a, b, 0);
    if a.len() > 0 {
        lemma_same_fields_same_display(a.drop_last(), b.drop_last());
        lemma_same_type_same_display(a.last().1.ttype, b.last().1.ttype);
        if a.len() == 1 {
            assert(a[0] == a.last());
            assert(b[0] == b.last());
        }
    }
}

/// Taking a value's address and dereferencing the result, through the
/// executable `match_unary_op`, gives back a type that agrees with the
/// value's, immutable: whatever results agree with those of the operator
/// table, the second exists and agrees with `t`'s type.
pub proof fn lemma_deref_of_address_at_the_functions(t: Type, address: Type, back: Option<Type>)
    requires
        same_result(Some(address), spec_match_unary_op(TokenType::BinaryAnd, t)),
        same_result(back, spec_match_unary_op(TokenType::Star, address)),
    ensures
        spec_match_unary_op(TokenType::BinaryAnd, t) == Some(Type { ttype: pointer_to(t.ttype, false), mutable: false }),
        back matches Some(b) && same_value_type(b, Type { ttype: t.ttype, mutable: false }),
{
    let p = address.ttype->Pointer_0;
    let b = back->Some_0;
    lemma_same_type_transitive(b.ttype, p.inner_type, t.ttype);
}

/// Agreement of types is symmetric.
pub proof fn lemma_same_type_symmetric(a: BuiltinType, b: BuiltinType)
    requires
        same_type(a, b),
    ensures
        same_type(b, a),
    decreases a,
{
    match a {
        BuiltinType::Pointer(x) => lemma_same_type_symmetric(x.inner_type, b->Pointer_0.inner_type),
        BuiltinType::Function(x) => {
            lemma_same_types_symmetric(x.arguments@, b->Function_0.arguments@);
            lemma_same_type_symmetric(x.return_type, b->Function_0.return_type);
        },
        BuiltinType::Struct(x) => lemma_same_fields_symmetric(x.fields@, b->Struct_0.fields@),
        _ => {},
    }
}

/// Agreement of lists of types is symmetric.
pub proof fn lemma_same_types_symmetric(a: Seq<BuiltinType>, b: Seq<BuiltinType>)
    requires
        same_types(a, b),
    ensures
        same_types(b, a),
    decreases a,
{
    if a.len() > 0 {
        lemma_same_types_symmetric(a.drop_last(), b.drop_last());
        lemma_same_type_symmetric(a.last(), b.last());
    }
}

/// Agreement of lists of fields is symmetric.
pub proof fn lemma_same_fields_symmetric(a: Seq<(String, Type)>, b: Seq<(String, Type)>)
    requires
        same_fields(a, b),
    ensures
        same_fields(b, a),
    decreases a,
{
    if a.len() > 0 {
        lemma_same_fields_symmetric(a.drop_last(), b.drop_last());
        lemma_same_type_symmetric(a.last().1.ttype, b.last().1.ttype);
    }
}

/// Agreement of types is transitive.
pub proof fn lemma_same_type_transitive(a: BuiltinType, b: BuiltinType, c: BuiltinType)
    requires
        same_type(a, b),
        same_type(b, c),
    ensures
        same_type(a, c),
    decreases a,
{
    match a {
        BuiltinType::Pointer(x) => lemma_same_type_transitive(x.inner_type, b->Pointer_0.inner_type, c->Pointer_0.inner_type),
        BuiltinType::Function(x) => {
            lemma_same_types_transitive(x.arguments@, b->Function_0.arguments@, c->Function_0.arguments@);
            lemma_same_type_transitive(x.return_type, b->Function_0.return_type, c->Function_0.return_type);
        },
        BuiltinType::Struct(x) => lemma_same_fields_transitive(x.fields@, b->Struct_0.fields@, c->Struct_0.fields@),
        _ => {},
    }
}

/// Agreement of lists of types is transitive.
pub proof fn lemma_same_types_transitive(a: Seq<BuiltinType>, b: Seq<BuiltinType>, c: Seq<BuiltinType>)
    requires
        same_types(a, b),
        same_types(b, c),
    ensures
        same_types(a, c),
    decreases a,
{
    if a.len() > 0 {
        lemma_same_types_transitive(a.drop_last(), b.drop_last(), c.drop_last());
        lemma_same_type_transitive(a.last(), b.last(), c.last());
    }
}

/// Agreement of lists of fields is transitive.
pub proof fn lemma_same_fields_transitive(a: Seq<(String, Type)>, b: Seq<(String, Type)>, c: Seq<(String, Type)>)
    requires
        same_fields(a, b),
        same_fields(b, c),
    ensures
        same_fields(a, c),
    decreases a,
{
    if a.len() > 0 {
        lemma_same_fields_transitive(a.drop_last(), b.drop_last(), c.drop_last());
        lemma_same_type_transitive(a.last().1.ttype, b.last().1.ttype, c.last().1.ttype);
    }
}

/// Agreement of value types is transitive.
pub proof fn lemma_same_value_type_transitive(a: Type, b: Type, c: Type)
    requires
        same_value_type(a, b),
        same_value_type(b, c),
    ensures
        same_value_type(a, c),
{
    lemma_same_type_transitive(a.ttype, b.ttype, c.ttype);
}

} // verus!
