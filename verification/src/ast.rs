//! The program tree that the analyzer and the interpreter walk.
//!
//! The tree is a plain owned structure: every node owns its children, so it
//! is acyclic by construction.

use vstd::prelude::*;

verus! {

/// A position in the source text.
#[derive(Clone, Copy, Debug, PartialEq, Eq, Structural)]
pub struct Location {
    pub line: usize,
    pub column: usize,
}

impl Default for Location {
    fn default() -> (r: Location)
        ensures
            r == (Location { line: 0, column: 0 }),
    {
        Location { line: 0, column: 0 }
    }
}

/// The numeric kinds a literal or a declared type can name.
#[derive(Clone, Copy, Debug, PartialEq, Eq, Structural)]
pub enum NumericType {
    I8,
    I16,
    I32,
    I64,
    ISize,
    U8,
    U16,
    U32,
    U64,
    USize,
    F32,
    F64,
}

/// A literal as the source spells it.
#[derive(Debug)]
pub enum Literal {
    /// The digits of a number and the numeric kind it was written with.
    Numeric(String, NumericType),
    /// The contents of a string literal.
    String(String),
    /// The word of a boolean literal; only `true` stands for truth.
    Boolean(String),
}

/// The operators of the language, binary and unary alike.
#[derive(Clone, Copy, Debug, PartialEq, Eq, Structural)]
pub enum Operator {
    Plus,
    Minus,
    Multiply,
    Divide,
    Modulus,
    Equals,
    NotEquals,
    Greater,
    Less,
    GreaterEquals,
    LessEquals,
    LogicalAnd,
    LogicalOr,
    LogicalNot,
    BitAnd,
    BitOr,
    BitNot,
    AddressOf,
    Dereference,
}

impl Operator {
    /// `&&`, `||` and `!`.
    pub open spec fn is_logical(self) -> bool {
        self == Operator::LogicalAnd || self == Operator::LogicalOr || self
            == Operator::LogicalNot
    }

    /// The six comparisons, which always yield a boolean.
    pub open spec fn is_comparison(self) -> bool {
        self == Operator::Equals || self == Operator::NotEquals || self == Operator::Less || self
            == Operator::LessEquals || self == Operator::Greater || self
            == Operator::GreaterEquals
    }
}

/// A static type.
#[derive(Debug)]
pub enum Type {
    Numeric(NumericType),
    Boolean,
    Void,
    Named(String),
    Pointer(Box<Type>),
}

/// The mathematical value of a [`Type`]: names are sequences of characters.
pub enum TypeView {
    Numeric(NumericType),
    Boolean,
    Void,
    Named(Seq<char>),
    Pointer(Box<TypeView>),
}

/// The value of a type, by recursion over pointer types.
pub open spec fn type_view(t: Type) -> TypeView
    decreases t,
{
    match t {
        Type::Numeric(n) => TypeView::Numeric(n),
        Type::Boolean => TypeView::Boolean,
        Type::Void => TypeView::Void,
        Type::Named(name) => TypeView::Named(name@),
        Type::Pointer(inner) => TypeView::Pointer(Box::new(type_view(*inner))),
    }
}

impl View for Type {
    type V = TypeView;

    open spec fn view(&self) -> TypeView {
        type_view(*self)
    }
}

impl Type {
    /// Whether two types are the same type.
    pub fn same(&self, other: &Type) -> (r: bool)
        ensures
            r == (self@ == other@),
        decreases self,
    {
        match (self, other) {
            (Type::Numeric(a), Type::Numeric(b)) => *a == *b,
            (Type::Boolean, Type::Boolean) => true,
            (Type::Void, Type::Void) => true,
            (Type::Named(a), Type::Named(b)) => *a == *b,
            (Type::Pointer(a), Type::Pointer(b)) => a.same(b),
            _ => false,
        }
    }
}

impl Clone for Type {
    fn clone(&self) -> (r: Type)
        ensures
            r@ == self@,
        decreases self,
    {
        match self {
            Type::Numeric(n) => Type::Numeric(*n),
            Type::Boolean => Type::Boolean,
            Type::Void => Type::Void,
            Type::Named(name) => Type::Named(name.clone()),
            Type::Pointer(inner) => Type::Pointer(Box::new((**inner).clone())),
        }
    }
}

/// A parameter of an interpreted function.
#[derive(Debug)]
pub struct Param {
    pub name: String,
    pub ty: Type,
}

/// An expression.
#[derive(Debug)]
#[allow(inconsistent_fields)]
pub enum Expr {
    Literal(Literal),
    Variable(String),
    Binary { left: Box<Expr>, operator: Operator, right: Box<Expr> },
    Unary { operator: Operator, operand: Box<Expr> },
    Assignment { target: Box<Expr>, value: Box<Expr> },
    If { condition: Box<Expr>, then_branch: Vec<Statement>, else_branch: Option<Vec<Statement>> },
    FunctionCall { name: String, arguments: Vec<Expr> },
}

/// A statement, without its place in the source.
#[derive(Debug)]
#[allow(inconsistent_fields)]
pub enum Stmt {
    Let { name: String, ty: Option<Type>, value: Expr },
    Func { name: String, params: Vec<Param>, ty: Type, body: Box<Statement> },
    Expr(Expr),
    Scope { statements: Vec<Statement> },
    While { condition: Expr, body: Box<Statement> },
    Return { value: Option<Expr> },
    Break,
    Continue,
}

/// A statement together with the place in the source where it begins.
#[derive(Debug)]
pub struct Statement {
    pub stmt: Stmt,
    pub location: Location,
}

} // verus!
