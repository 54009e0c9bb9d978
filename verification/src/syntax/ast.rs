use vstd::prelude::*;

use crate::syntax::lexer::Token;

verus! {

/// The number that identifies a node of the syntax tree.
#[derive(Debug, Clone, Copy, PartialEq, Eq, Hash, Structural)]
pub struct AstNodeIndex(pub usize);

pub struct Identifier {
    pub name: Token,
}

pub struct Variable {}

/// A type named by a single token.
pub struct Type {
    pub name: Token,
}

/// A pointer type: `*const T` or `*mut T`.
pub struct PointerAnnotation {
    pub inner_type: Box<TypeKind>,
    pub points_to_mut: bool,
}

pub enum TypeKind {
    Simple(Type),
    Pointer(PointerAnnotation),
}

pub struct TypeAnnotation {
    pub kind: TypeKind,
    pub is_mut: bool,
}

/// A name with its declared type, as in a field or a parameter.
pub struct TypedDeclaration {
    pub name: Token,
    pub declared_type: TypeAnnotation,
}

pub struct SizedTypedDeclaration {
    name: Token,
    declared_type: Type,
    size: usize,
}

pub struct SelfExpression {
    pub token: Token,
}

pub struct EnumVariant {}

pub struct BreakStatement {
    pub token: Token,
    pub loop_key: Option<Token>,
}

pub struct ContinueStatement {
    pub token: Token,
    pub loop_key: Option<Token>,
}

pub struct StructStatement {
    pub token: Token,
    pub name: Token,
    pub fields: Vec<TypedDeclaration>,
}

/// What a function declaration says apart from its body: its name,
/// parameters and return type.
pub struct FunctionSignature {
    pub name: Token,
    pub arguments: Vec<TypedDeclaration>,
    pub return_type: Option<TypeAnnotation>,
}

/// What a method declaration says apart from its body.
pub struct MethodSignature {
    pub name: Token,
    pub bound_type: Token,
    pub is_mut_self: bool,
    pub arguments: Vec<TypedDeclaration>,
    pub return_type: Option<TypeAnnotation>,
}

/// A function or a method of an `impl` block, apart from its body.
pub enum ImplFunctionSignature {
    Function(FunctionSignature),
    Method(MethodSignature),
}

/// A literal with the token it was read from. A floating-point literal
/// keeps its text in its token.
pub enum Literal {
    U8 { token: Token, value: u8 },
    U16 { token: Token, value: u16 },
    U32 { token: Token, value: u32 },
    U64 { token: Token, value: u64 },
    I8 { token: Token, value: i8 },
    I16 { token: Token, value: i16 },
    I32 { token: Token, value: i32 },
    I64 { token: Token, value: i64 },
    F32 { token: Token },
    F64 { token: Token },
    Bool { token: Token, value: bool },
    Char { token: Token, value: char },
    String { token: Token, value: String },
    MultilineString { token: Token, value: String },
}

/// The value of a literal that is not a floating-point number.
pub enum PlainLiteral {
    U8(u8),
    U16(u16),
    U32(u32),
    U64(u64),
    I8(i8),
    I16(i16),
    I32(i32),
    I64(i64),
    Bool(bool),
    Char(char),
    String(String),
}

pub struct Grouping {
    pub token: Token,
    pub expression: Box<Expression>,
}

pub struct DotAccess {
    pub object: Box<Expression>,
    pub name: Token,
}

pub struct ArrowAccess {
    pub pointer: Box<Expression>,
    pub name: Token,
}

pub struct Call {
    pub token: Token,
    pub callee: Box<Expression>,
    pub arguments: Vec<Expression>,
}

pub struct ArraySlice {
    pub token: Token,
    pub array_expression: Box<Expression>,
    pub slice_expression: Box<Expression>,
}

pub struct Unary {
    pub token: Token,
    pub operator: Token,
    pub expression: Box<Expression>,
}

pub struct Cast {
    pub token: Token,
    pub left: Box<Expression>,
    pub target_type: TypeAnnotation,
    pub is_reinterpret_cast: bool,
}

pub struct Binary {
    pub left: Box<Expression>,
    pub operator: Token,
    pub right: Box<Expression>,
}

pub struct Range {
    pub token: Token,
    pub start: Box<Expression>,
    pub end: Box<Expression>,
    pub inclusive: bool,
}

pub struct InplaceAssignment {
    pub token: Token,
    pub lhs: Box<Expression>,
    pub operator: Token,
    pub rhs: Box<Expression>,
}

pub struct Assignment {
    pub token: Token,
    pub lhs: Box<Expression>,
    pub rhs: Box<Expression>,
}

pub struct IfElseExpression {
    pub token: Token,
    pub condition: Box<Expression>,
    pub then_branch: BlockExpression,
    pub else_branch: BlockExpression,
}

pub struct BlockExpression {
    pub token: Token,
    pub statements: Vec<Statement>,
    pub return_expression: Option<Box<Expression>>,
}

pub struct FnExpression {
    pub token: Token,
    pub function: Function,
}

pub struct StructInitializer {
    pub token: Token,
    pub struct_name: Token,
    pub field_initializers: Vec<(Token, Expression)>,
}

/// An expression of the language.
pub enum Expression {
    Grouping(Grouping),
    Literal(Literal),
    Identifier(Identifier),
    MethodCall(),
    DotSet {},
    ArrowSet {},
    DotAccess(DotAccess),
    ArrowAccess(ArrowAccess),
    Call(Call),
    ArraySlice(ArraySlice),
    Unary(Unary),
    Cast(Cast),
    Binary(Binary),
    Range(Range),
    InplaceAssignment(InplaceAssignment),
    Assignment(Assignment),
    IfElseExpression(IfElseExpression),
    Block(BlockExpression),
    SelfExpression(SelfExpression),
    FnExpression(FnExpression),
    StructInitializer(StructInitializer),
}

/// A function with its body.
pub struct Function {
    pub name: Token,
    pub arguments: Vec<TypedDeclaration>,
    pub return_type: Option<TypeAnnotation>,
    pub body: Vec<Statement>,
}

/// A method with its body.
pub struct Method {
    pub name: Token,
    pub bound_type: Token,
    pub is_mut_self: bool,
    pub arguments: Vec<TypedDeclaration>,
    pub return_type: Option<TypeAnnotation>,
    pub body: Vec<Statement>,
}

/// A function or a method of an `impl` block.
pub enum ImplFunction {
    Function(Function),
    Method(Method),
}

pub struct LetStatement {
    pub token: Token,
    pub name: Token,
    pub variable_type: Option<TypeAnnotation>,
    pub initializer: Option<Box<Expression>>,
    pub is_mut: bool,
}

pub struct StaticStatement {
    pub token: Token,
    pub name: Token,
    pub variable_type: TypeAnnotation,
    pub initializer: Box<Expression>,
    pub is_mut: bool,
}

pub struct ConstStatement {
    pub token: Token,
    pub name: Token,
    pub variable_type: TypeAnnotation,
    pub initializer: Box<Expression>,
}

pub struct ExpressionStatement {
    pub expression: Box<Expression>,
}

pub struct WhileStatement {
    pub token: Token,
    pub condition: Box<Expression>,
    pub body: Vec<Statement>,
}

pub struct FnStatement {
    pub token: Token,
    pub function: ImplFunction,
}

pub struct ReturnStatement {
    pub token: Token,
    pub expression: Option<Box<Expression>>,
}

pub struct DeferStatement {
    pub token: Token,
    pub call_expression: Box<Expression>,
    pub to_closest_block: bool,
}

pub struct ImplStatement {
    pub token: Token,
    pub implemented_type: Token,
    pub top_level_statements: Vec<Statement>,
    pub functions: Vec<ImplFunction>,
}

pub struct IfElseStatement {
    pub token: Token,
    pub condition: Box<Expression>,
    pub then_branch: Vec<Statement>,
    pub else_branch: Option<Vec<Statement>>,
}

/// A statement of the language.
pub enum Statement {
    EmptyStatement { semicolon_token: Token },
    LetStatement(LetStatement),
    StaticStatement(StaticStatement),
    ConstStatement(ConstStatement),
    ExpressionStatement(ExpressionStatement),
    WhileStatement(WhileStatement),
    BreakStatement(BreakStatement),
    ContinueStatement(ContinueStatement),
    FnStatement(FnStatement),
    ReturnStatement(ReturnStatement),
    DeferStatement(DeferStatement),
    StructStatement(StructStatement),
    ImplStatement(ImplStatement),
    IfElseStatement(IfElseStatement),
}

/// A node of the syntax tree: an expression or a statement.
pub enum Ast {
    Expression(Expression),
    Statement(Statement),
}

impl Expression {
    /// A block of statements, with the expression it ends with if any.
    pub fn new_block(token: Token, statements: Vec<Statement>, return_expression: Option<Box<Expression>>) -> (r: Self)
        ensures
            r == (Expression::Block(BlockExpression { token, statements, return_expression })),
    {
        Expression::Block(BlockExpression { token, statements, return_expression })
    }

    /// A parenthesised expression.
    pub fn new_grouping(token: Token, expression: Expression) -> (r: Self)
        ensures
            r == (Expression::Grouping(Grouping { token, expression: Box::new(expression) })),
    {
        Expression::Grouping(Grouping { token, expression: Box::new(expression) })
    }

    /// A name in use.
    pub fn new_identifier(name: Token) -> (r: Self)
        ensures
            r == (Expression::Identifier(Identifier { name })),
    {
        Expression::Identifier(Identifier { name })
    }

    /// `self`.
    pub fn new_self(token: Token) -> (r: Self)
        ensures
            r == (Expression::SelfExpression(SelfExpression { token })),
    {
        Expression::SelfExpression(SelfExpression { token })
    }

    /// A function written as an expression.
    pub fn new_fn(token: Token, function: Function) -> (r: Self)
        ensures
            r == (Expression::FnExpression(FnExpression { token, function })),
    {
        Expression::FnExpression(FnExpression { token, function })
    }

    /// A literal.
    pub fn new_literal(literal: Literal) -> (r: Self)
        ensures
            r == (Expression::Literal(literal)),
    {
        Expression::Literal(literal)
    }

    /// A struct initializer with its fields' values.
    pub fn new_struct_initializer(token: Token, struct_name: Token, field_initializers: Vec<(Token, Expression)>) -> (r: Self)
        ensures
            r == (Expression::StructInitializer(StructInitializer { token, struct_name, field_initializers })),
    {
        Expression::StructInitializer(StructInitializer { token, struct_name, field_initializers })
    }

    /// A cast of `left` to `target_type`.
    pub fn new_cast(token: Token, left: Expression, target_type: TypeAnnotation, is_reinterpret_cast: bool) -> (r: Self)
        ensures
            r == (Expression::Cast(Cast { token, left: Box::new(left), target_type, is_reinterpret_cast })),
    {
        Expression::Cast(Cast { token, left: Box::new(left), target_type, is_reinterpret_cast })
    }

    /// `object.name`.
    pub fn new_dot_access(object: Expression, name: Token) -> (r: Self)
        ensures
            r == (Expression::DotAccess(DotAccess { object: Box::new(object), name })),
    {
        Expression::DotAccess(DotAccess { object: Box::new(object), name })
    }

    /// `pointer->name`.
    pub fn new_arrow_access(pointer: Expression, name: Token) -> (r: Self)
        ensures
            r == (Expression::ArrowAccess(ArrowAccess { pointer: Box::new(pointer), name })),
    {
        Expression::ArrowAccess(ArrowAccess { pointer: Box::new(pointer), name })
    }

    /// A call.
    pub fn new_call(token: Token, callee: Expression, arguments: Vec<Expression>) -> (r: Self)
        ensures
            r == (Expression::Call(Call { token, callee: Box::new(callee), arguments })),
    {
        Expression::Call(Call { token, callee: Box::new(callee), arguments })
    }

    /// `array[slice]`.
    pub fn new_array_slice(token: Token, array_expression: Expression, slice_expression: Expression) -> (r: Self)
        ensures
            r == (Expression::ArraySlice(ArraySlice { token, array_expression: Box::new(array_expression), slice_expression: Box::new(slice_expression) })),
    {
        Expression::ArraySlice(ArraySlice { token, array_expression: Box::new(array_expression), slice_expression: Box::new(slice_expression) })
    }

    /// A unary operator applied to `right`.
    pub fn new_unary(token: Token, operator: Token, right: Expression) -> (r: Self)
        ensures
            r == (Expression::Unary(Unary { token, operator, expression: Box::new(right) })),
    {
        Expression::Unary(Unary { token, operator, expression: Box::new(right) })
    }

    /// A binary operator applied to `left` and `right`.
    pub fn new_binary(left: Expression, operator: Token, right: Expression) -> (r: Self)
        ensures
            r == (Expression::Binary(Binary { left: Box::new(left), operator, right: Box::new(right) })),
    {
        Expression::Binary(Binary { left: Box::new(left), operator, right: Box::new(right) })
    }

    /// `left = right`.
    pub fn new_assignment(token: Token, left: Expression, right: Expression) -> (r: Self)
        ensures
            r == (Expression::Assignment(Assignment { token, lhs: Box::new(left), rhs: Box::new(right) })),
    {
        Expression::Assignment(Assignment { token, lhs: Box::new(left), rhs: Box::new(right) })
    }

    /// `left op= right`.
    pub fn new_inplace_assignment(token: Token, left: Expression, operator: Token, right: Expression) -> (r: Self)
        ensures
            r == (Expression::InplaceAssignment(InplaceAssignment { token, lhs: Box::new(left), operator, rhs: Box::new(right) })),
    {
        Expression::InplaceAssignment(InplaceAssignment { token, lhs: Box::new(left), operator, rhs: Box::new(right) })
    }
}

impl Statement {
    /// A `defer` of `call`.
    pub fn new_defer(token: Token, call: Expression, to_closest_block: bool) -> (r: Self)
        ensures
            r == (Statement::DeferStatement(DeferStatement { token, call_expression: Box::new(call), to_closest_block })),
    {
        Statement::DeferStatement(DeferStatement { token, call_expression: Box::new(call), to_closest_block })
    }

    /// A `let` statement.
    pub fn new_let(token: Token, name: Token, variable_type: Option<TypeAnnotation>, initializer: Option<Box<Expression>>, is_mut: bool) -> (r: Self)
        ensures
            r == (Statement::LetStatement(LetStatement { token, name, variable_type, initializer, is_mut })),
    {
        Statement::LetStatement(LetStatement { token, name, variable_type, initializer, is_mut })
    }

    /// A `static` statement.
    pub fn new_static(token: Token, name: Token, variable_type: TypeAnnotation, initializer: Box<Expression>, is_mut: bool) -> (r: Self)
        ensures
            r == (Statement::StaticStatement(StaticStatement { token, name, variable_type, initializer, is_mut })),
    {
        Statement::StaticStatement(StaticStatement { token, name, variable_type, initializer, is_mut })
    }

    /// A `const` statement.
    pub fn new_const(token: Token, name: Token, variable_type: TypeAnnotation, initializer: Box<Expression>) -> (r: Self)
        ensures
            r == (Statement::ConstStatement(ConstStatement { token, name, variable_type, initializer })),
    {
        Statement::ConstStatement(ConstStatement { token, name, variable_type, initializer })
    }

    /// A function or method declaration.
    pub fn new_fn(token: Token, function: ImplFunction) -> (r: Self)
        ensures
            r == (Statement::FnStatement(FnStatement { token, function })),
    {
        Statement::FnStatement(FnStatement { token, function })
    }

    /// A struct declaration.
    pub fn new_struct(token: Token, name: Token, fields: Vec<TypedDeclaration>) -> (r: Self)
        ensures
            r == (Statement::StructStatement(StructStatement { token, name, fields })),
    {
        Statement::StructStatement(StructStatement { token, name, fields })
    }

    /// An `impl` block.
    pub fn new_impl(token: Token, implemented_type: Token, top_level_statements: Vec<Statement>, functions: Vec<ImplFunction>) -> (r: Self)
        ensures
            r == (Statement::ImplStatement(ImplStatement { token, implemented_type, top_level_statements, functions })),
    {
        Statement::ImplStatement(ImplStatement { token, implemented_type, top_level_statements, functions })
    }

    /// An expression used as a statement.
    pub fn new_expression(expression: Expression) -> (r: Self)
        ensures
            r == (Statement::ExpressionStatement(ExpressionStatement { expression: Box::new(expression) })),
    {
        Statement::ExpressionStatement(ExpressionStatement { expression: Box::new(expression) })
    }

    /// An `if` statement with its `else` branch if any.
    pub fn new_if_else(token: Token, condition: Expression, then_branch: Vec<Statement>, else_branch: Option<Vec<Statement>>) -> (r: Self)
        ensures
            r == (Statement::IfElseStatement(IfElseStatement { token, condition: Box::new(condition), then_branch, else_branch })),
    {
        Statement::IfElseStatement(IfElseStatement { token, condition: Box::new(condition), then_branch, else_branch })
    }

    /// A `while` loop.
    pub fn new_while(token: Token, condition: Expression, body: Vec<Statement>) -> (r: Self)
        ensures
            r == (Statement::WhileStatement(WhileStatement { token, condition: Box::new(condition), body })),
    {
        Statement::WhileStatement(WhileStatement { token, condition: Box::new(condition), body })
    }

    /// A `break`.
    pub fn new_break(token: Token, loop_key: Option<Token>) -> (r: Self)
        ensures
            r == (Statement::BreakStatement(BreakStatement { token, loop_key })),
    {
        Statement::BreakStatement(BreakStatement { token, loop_key })
    }

    /// A `continue`.
    pub fn new_continue(token: Token, loop_key: Option<Token>) -> (r: Self)
        ensures
            r == (Statement::ContinueStatement(ContinueStatement { token, loop_key })),
    {
        Statement::ContinueStatement(ContinueStatement { token, loop_key })
    }

    /// A `return`.
    pub fn new_return(token: Token, expression: Option<Box<Expression>>) -> (r: Self)
        ensures
            r == (Statement::ReturnStatement(ReturnStatement { token, expression })),
    {
        Statement::ReturnStatement(ReturnStatement { token, expression })
    }

    /// An empty statement: a lone `;`.
    pub fn new_empty(semicolon_token: Token) -> (r: Self)
        ensures
            r == (Statement::EmptyStatement { semicolon_token }),
    {
        Statement::EmptyStatement { semicolon_token }
    }
}

} // verus!
