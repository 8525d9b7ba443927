//! The syntax tree that the parser builds and the type checker reads.
use vstd::prelude::*;
use crate::roxc::semant::types::{Identifier, Type, TypeV};

verus! {

/// A range of byte offsets into the source text.
#[derive(Clone, Copy, Debug, PartialEq, Eq, Structural)]
pub struct Span(pub usize, pub usize);

/// A value together with the span of source text it was read from.
#[derive(Debug)]
pub struct Spanned<T> {
    pub value: T,
    pub span: Span,
}

impl<T> Spanned<T> {
    /// The value with the empty span at the start of the text.
    pub fn dummy_span(value: T) -> (r: Self)
        ensures
            r.value == value,
            r.span == Span(0, 0),
    {
        Spanned { value, span: Span(0, 0) }
    }
}

/// The digits of a floating-point literal, as they stand in the source.
pub type FloatLiteral = String;

/// An expression of the language.
#[derive(Debug)]
pub enum Expression {
    DotAccess(Box<Expression>, Spanned<Identifier>),
    BracketAccess(Box<Expression>, Box<Expression>),
    And(Box<Expression>, Box<Expression>),
    Array(Vec<Box<Expression>>),
    Assignment(Box<LValue>, Box<Expression>),
    Boolean(bool),
    FunctionCall(Spanned<Identifier>, Vec<Box<TypeName>>, Vec<Box<Expression>>),
    Identifier(Spanned<Identifier>),
    Float(Spanned<FloatLiteral>),
    Int(Spanned<i32>),
    Operation(Box<Expression>, Spanned<Operation>, Box<Expression>),
    Or(Box<Expression>, Box<Expression>),
    String(Spanned<String>),
    StructInstantiation(
        Spanned<Identifier>,
        Option<Vec<Box<TypeName>>>,
        Vec<(Identifier, Box<Expression>)>,
    ),
    Unary(Unary, Box<Expression>),
    Variable(Spanned<Identifier>, Box<Expression>),
    ParseError,
}

/// The place an assignment writes to.
#[derive(Debug)]
pub struct LValue(pub Expression);

/// A type as it is written in the source.
#[derive(Debug)]
pub enum TypeName {
    Type(Spanned<Identifier>),
    GenericType(Spanned<Identifier>, Vec<Box<TypeName>>),
    Function(Vec<Box<TypeName>>, Box<TypeName>),
    ArrayType(Box<TypeName>),
}

/// A block of statements.
pub type Block = Vec<Box<Statement>>;

/// A parameter: its name and the name of its type.
pub type Param = (Identifier, Box<TypeName>);

/// A binary operator.
#[derive(Clone, Copy, Debug, PartialEq, Eq, Structural)]
pub enum Operation {
    Equals,
    NotEquals,
    GreaterThan,
    LessThan,
    Add,
    Subtract,
    Multiply,
    Divide,
}

/// A unary operator.
#[derive(Clone, Copy, Debug, PartialEq, Eq, Structural)]
pub enum Unary {
    Not,
    Negate,
}

/// The signature of a function once its types are known.
#[derive(Debug)]
pub struct FunctionDeclaration {
    pub name: Identifier,
    pub params: Vec<(Identifier, Type)>,
    pub return_type: Type,
}

/// The model of a `FunctionDeclaration`.
pub struct FunctionDeclarationV {
    pub name: Seq<char>,
    pub params: Seq<(Seq<char>, TypeV)>,
    pub return_type: TypeV,
}

impl View for FunctionDeclaration {
    type V = FunctionDeclarationV;

    open spec fn view(&self) -> FunctionDeclarationV {
        FunctionDeclarationV {
            name: self.name@,
            params: crate::roxc::semant::types::fields_view(self.params@),
            return_type: self.return_type@,
        }
    }
}

/// A statement of the language; functions and structures are declared by
/// statements at the top level.
#[derive(Debug)]
pub enum Statement {
    Expression(Box<Expression>),
    Return(Option<Box<Expression>>),
    IfElse(Box<Expression>, Block, Option<Block>),
    ExternFunctionDeclaration(Identifier, Vec<Box<TypeName>>, Option<Box<TypeName>>),
    FunctionDeclaration(
        Identifier,
        Option<Vec<Identifier>>,
        Vec<Param>,
        Option<Box<TypeName>>,
        Block,
    ),
    StructDeclaration(Identifier, Option<Vec<Identifier>>, Vec<Param>),
}

/// The model of a `TypeName`.
pub enum TypeNameV {
    Type(Seq<char>, Span),
    GenericType(Seq<char>, Span, Seq<TypeNameV>),
    Function(Seq<TypeNameV>, Box<TypeNameV>),
    ArrayType(Box<TypeNameV>),
}

/// The model of an `Expression`; an assignment's target is the model of
/// the expression it wraps.
pub enum ExpressionV {
    DotAccess(Box<ExpressionV>, Seq<char>, Span),
    BracketAccess(Box<ExpressionV>, Box<ExpressionV>),
    And(Box<ExpressionV>, Box<ExpressionV>),
    Array(Seq<ExpressionV>),
    Assignment(Box<ExpressionV>, Box<ExpressionV>),
    Boolean(bool),
    FunctionCall(Seq<char>, Span, Seq<TypeNameV>, Seq<ExpressionV>),
    Identifier(Seq<char>, Span),
    Float(Seq<char>, Span),
    Int(i32, Span),
    Operation(Box<ExpressionV>, Operation, Span, Box<ExpressionV>),
    Or(Box<ExpressionV>, Box<ExpressionV>),
    Str(Seq<char>, Span),
    StructInstantiation(Seq<char>, Span, Option<Seq<TypeNameV>>, Seq<(Seq<char>, ExpressionV)>),
    Unary(Unary, Box<ExpressionV>),
    Variable(Seq<char>, Span, Box<ExpressionV>),
    ParseError,
}

/// The model of a `Statement`.
pub enum StatementV {
    Expression(ExpressionV),
    Return(Option<ExpressionV>),
    IfElse(ExpressionV, Seq<StatementV>, Option<Seq<StatementV>>),
    ExternFunctionDeclaration(Seq<char>, Seq<TypeNameV>, Option<TypeNameV>),
    FunctionDeclaration(
        Seq<char>,
        Option<Seq<Seq<char>>>,
        Seq<(Seq<char>, TypeNameV)>,
        Option<TypeNameV>,
        Seq<StatementV>,
    ),
    StructDeclaration(Seq<char>, Option<Seq<Seq<char>>>, Seq<(Seq<char>, TypeNameV)>),
}

/// The model of a type name.
pub open spec fn type_name_view(t: TypeName) -> TypeNameV
    decreases t,
{
    match t {
        TypeName::Type(x) => TypeNameV::Type(x.value@, x.span),
        TypeName::GenericType(x, args) => TypeNameV::GenericType(x.value@, x.span, type_names_view(args@)),
        TypeName::Function(args, ret) => TypeNameV::Function(type_names_view(args@), Box::new(type_name_view(*ret))),
        TypeName::ArrayType(inner) => TypeNameV::ArrayType(Box::new(type_name_view(*inner))),
    }
}

/// The models of a list of type names.
pub open spec fn type_names_view(s: Seq<Box<TypeName>>) -> Seq<TypeNameV>
    decreases s,
{
    if s.len() == 0 {
        Seq::empty()
    } else {
        type_names_view(s.drop_last()).push(type_name_view(*s.last()))
    }
}

/// The model of an optional type name.
pub open spec fn opt_type_name_view(t: Option<Box<TypeName>>) -> Option<TypeNameV> {
    match t {
        Some(b) => Some(type_name_view(*b)),
        None => None,
    }
}

/// The characters of each name of an optional list.
pub open spec fn opt_names_view(s: Option<Vec<Identifier>>) -> Option<Seq<Seq<char>>> {
    match s {
        Some(v) => Some(crate::roxc::semant::types::names_view(v@)),
        None => None,
    }
}

/// The models of a list of parameters.
pub open spec fn params_view(s: Seq<Param>) -> Seq<(Seq<char>, TypeNameV)>
    decreases s,
{
    if s.len() == 0 {
        Seq::empty()
    } else {
        params_view(s.drop_last()).push((s.last().0@, type_name_view(*s.last().1)))
    }
}

/// The model of an expression.
pub open spec fn expression_view(e: Expression) -> ExpressionV
    decreases e,
{
    match e {
        Expression::DotAccess(a, x) => ExpressionV::DotAccess(Box::new(expression_view(*a)), x.value@, x.span),
        Expression::BracketAccess(a, i) => ExpressionV::BracketAccess(
            Box::new(expression_view(*a)),
            Box::new(expression_view(*i)),
        ),
        Expression::And(a, b) => ExpressionV::And(Box::new(expression_view(*a)), Box::new(expression_view(*b))),
        Expression::Array(es) => ExpressionV::Array(expressions_view(es@)),
        Expression::Assignment(l, r) => ExpressionV::Assignment(
            Box::new(expression_view(l.0)),
            Box::new(expression_view(*r)),
        ),
        Expression::Boolean(b) => ExpressionV::Boolean(b),
        Expression::FunctionCall(f, g, args) => ExpressionV::FunctionCall(
            f.value@,
            f.span,
            type_names_view(g@),
            expressions_view(args@),
        ),
        Expression::Identifier(x) => ExpressionV::Identifier(x.value@, x.span),
        Expression::Float(x) => ExpressionV::Float(x.value@, x.span),
        Expression::Int(x) => ExpressionV::Int(x.value, x.span),
        Expression::Operation(a, op, b) => ExpressionV::Operation(
            Box::new(expression_view(*a)),
            op.value,
            op.span,
            Box::new(expression_view(*b)),
        ),
        Expression::Or(a, b) => ExpressionV::Or(Box::new(expression_view(*a)), Box::new(expression_view(*b))),
        Expression::String(x) => ExpressionV::Str(x.value@, x.span),
        Expression::StructInstantiation(x, g, fields) => ExpressionV::StructInstantiation(
            x.value@,
            x.span,
            match g {
                Some(v) => Some(type_names_view(v@)),
                None => None,
            },
            field_expressions_view(fields@),
        ),
        Expression::Unary(u, a) => ExpressionV::Unary(u, Box::new(expression_view(*a))),
        Expression::Variable(x, a) => ExpressionV::Variable(x.value@, x.span, Box::new(expression_view(*a))),
        Expression::ParseError => ExpressionV::ParseError,
    }
}

/// The models of a list of expressions.
pub open spec fn expressions_view(s: Seq<Box<Expression>>) -> Seq<ExpressionV>
    decreases s,
{
    if s.len() == 0 {
        Seq::empty()
    } else {
        expressions_view(s.drop_last()).push(expression_view(*s.last()))
    }
}

/// The models of a list of named expressions.
pub open spec fn field_expressions_view(s: Seq<(Identifier, Box<Expression>)>) -> Seq<(Seq<char>, ExpressionV)>
    decreases s,
{
    if s.len() == 0 {
        Seq::empty()
    } else {
        field_expressions_view(s.drop_last()).push((s.last().0@, expression_view(*s.last().1)))
    }
}

/// The model of a statement.
pub open spec fn statement_view(s: Statement) -> StatementV
    decreases s,
{
    match s {
        Statement::Expression(e) => StatementV::Expression(expression_view(*e)),
        Statement::Return(e) => StatementV::Return(
            match e {
                Some(x) => Some(expression_view(*x)),
                None => None,
            },
        ),
        Statement::IfElse(c, b, e) => StatementV::IfElse(
            expression_view(*c),
            statements_view(b@),
            match e {
                Some(x) => Some(statements_view(x@)),
                None => None,
            },
        ),
        Statement::ExternFunctionDeclaration(n, ps, r) => StatementV::ExternFunctionDeclaration(
            n@,
            type_names_view(ps@),
            opt_type_name_view(r),
        ),
        Statement::FunctionDeclaration(n, g, ps, r, b) => StatementV::FunctionDeclaration(
            n@,
            opt_names_view(g),
            params_view(ps@),
            opt_type_name_view(r),
            statements_view(b@),
        ),
        Statement::StructDeclaration(n, g, fs) => StatementV::StructDeclaration(
            n@,
            opt_names_view(g),
            params_view(fs@),
        ),
    }
}

/// The models of a list of statements.
pub open spec fn statements_view(s: Seq<Box<Statement>>) -> Seq<StatementV>
    decreases s,
{
    if s.len() == 0 {
        Seq::empty()
    } else {
        statements_view(s.drop_last()).push(statement_view(*s.last()))
    }
}

impl View for TypeName {
    type V = TypeNameV;

    open spec fn view(&self) -> TypeNameV {
        type_name_view(*self)
    }
}

impl View for Expression {
    type V = ExpressionV;

    open spec fn view(&self) -> ExpressionV {
        expression_view(*self)
    }
}

impl View for Statement {
    type V = StatementV;

    open spec fn view(&self) -> StatementV {
        statement_view(*self)
    }
}

} // verus!
