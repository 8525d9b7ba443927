//! # Tagged Syntax
//! Tagged syntax is the syntax tree wrapped with the type information that
//! later stages of the compiler need, such as return types and variable
//! types.
use vstd::prelude::*;
use crate::roxc::parser::syntax::{
    FloatLiteral, FunctionDeclaration, FunctionDeclarationV, Operation, Span, Spanned, Unary,
};
use crate::roxc::errors::{placeholder_error, RoxError};
use crate::roxc::semant::types::{ConstructorV, Identifier, Type, TypeConstructor, TypeV};

verus! {

broadcast use vstd::seq::group_seq_axioms, vstd::std_specs::vec::group_vec_axioms;

/// The place an assignment writes to, with its type.
#[derive(Debug)]
pub struct TaggedLValue(pub TaggedExpression);

/// An expression together with its type.
#[derive(Debug)]
pub enum TaggedExpression {
    BracketAccess(Box<TaggedExpression>, Box<TaggedExpression>, Box<Type>),
    And(Box<TaggedExpression>, Box<TaggedExpression>),
    Array(Vec<TaggedExpression>, Box<Type>),
    Assignment(Box<TaggedLValue>, Box<TaggedExpression>, Box<Type>),
    Boolean(bool),
    FunctionCall(Spanned<Identifier>, Vec<TaggedExpression>, Box<Type>),
    Identifier(Spanned<Identifier>, Box<Type>),
    Float(Spanned<FloatLiteral>),
    Int(Spanned<i32>),
    Operation(Box<TaggedExpression>, Spanned<Operation>, Box<TaggedExpression>, Box<Type>),
    Or(Box<TaggedExpression>, Box<TaggedExpression>),
    String(Spanned<String>),
    StructInstantiation(Box<Type>, Vec<(Identifier, Box<TaggedExpression>)>),
    Unary(Unary, Box<TaggedExpression>, Box<Type>),
    Variable(Spanned<Identifier>, Box<TaggedExpression>, Box<Type>),
}

/// A block of tagged statements.
pub type TaggedBlock = Vec<TaggedStatement>;

/// A statement together with the types of what it contains.
#[derive(Debug)]
pub enum TaggedStatement {
    Expression(TaggedExpression),
    ExternFunctionDeclaration(FunctionDeclaration),
    FunctionDeclaration(FunctionDeclaration, TaggedBlock),
    StructDeclaration,
    IfElse(Box<TaggedExpression>, TaggedBlock, Option<TaggedBlock>),
    Return(Option<TaggedExpression>),
}

/// The model of a tagged expression.  An assignment's target is the
/// model of the expression it wraps.
pub enum TaggedV {
    BracketAccess(Box<TaggedV>, Box<TaggedV>, TypeV),
    And(Box<TaggedV>, Box<TaggedV>),
    Array(Seq<TaggedV>, TypeV),
    Assignment(Box<TaggedV>, Box<TaggedV>, TypeV),
    Boolean(bool),
    FunctionCall(Seq<char>, Span, Seq<TaggedV>, TypeV),
    Identifier(Seq<char>, Span, TypeV),
    Float(Seq<char>, Span),
    Int(i32, Span),
    Operation(Box<TaggedV>, Operation, Span, Box<TaggedV>, TypeV),
    Or(Box<TaggedV>, Box<TaggedV>),
    Str(Seq<char>, Span),
    StructInstantiation(TypeV, Seq<(Seq<char>, TaggedV)>),
    Unary(Unary, Box<TaggedV>, TypeV),
    Variable(Seq<char>, Span, Box<TaggedV>, TypeV),
}

/// The model of a tagged statement.
pub enum TaggedStatementV {
    Expression(TaggedV),
    ExternFunctionDeclaration(FunctionDeclarationV),
    FunctionDeclaration(FunctionDeclarationV, Seq<TaggedStatementV>),
    StructDeclaration,
    IfElse(TaggedV, Seq<TaggedStatementV>, Option<Seq<TaggedStatementV>>),
    Return(Option<TaggedV>),
}

/// The model of a tagged expression.
pub open spec fn tagged_view(e: TaggedExpression) -> TaggedV
    decreases e,
{
    match e {
        TaggedExpression::BracketAccess(a, i, t) => TaggedV::BracketAccess(
            Box::new(tagged_view(*a)),
            Box::new(tagged_view(*i)),
            t@,
        ),
        TaggedExpression::And(a, b) => TaggedV::And(
            Box::new(tagged_view(*a)),
            Box::new(tagged_view(*b)),
        ),
        TaggedExpression::Array(es, t) => TaggedV::Array(tagged_seq_view(es@), t@),
        TaggedExpression::Assignment(l, r, t) => TaggedV::Assignment(
            Box::new(tagged_view(l.0)),
            Box::new(tagged_view(*r)),
            t@,
        ),
        TaggedExpression::Boolean(b) => TaggedV::Boolean(b),
        TaggedExpression::FunctionCall(f, args, t) => TaggedV::FunctionCall(
            f.value@,
            f.span,
            tagged_seq_view(args@),
            t@,
        ),
        TaggedExpression::Identifier(x, t) => TaggedV::Identifier(x.value@, x.span, t@),
        TaggedExpression::Float(x) => TaggedV::Float(x.value@, x.span),
        TaggedExpression::Int(x) => TaggedV::Int(x.value, x.span),
        TaggedExpression::Operation(a, op, b, t) => TaggedV::Operation(
            Box::new(tagged_view(*a)),
            op.value,
            op.span,
            Box::new(tagged_view(*b)),
            t@,
        ),
        TaggedExpression::Or(a, b) => TaggedV::Or(
            Box::new(tagged_view(*a)),
            Box::new(tagged_view(*b)),
        ),
        TaggedExpression::String(s) => TaggedV::Str(s.value@, s.span),
        TaggedExpression::StructInstantiation(t, fields) => TaggedV::StructInstantiation(
            t@,
            tagged_fields_view(fields@),
        ),
        TaggedExpression::Unary(u, a, t) => TaggedV::Unary(u, Box::new(tagged_view(*a)), t@),
        TaggedExpression::Variable(x, a, t) => TaggedV::Variable(
            x.value@,
            x.span,
            Box::new(tagged_view(*a)),
            t@,
        ),
    }
}

/// The models of a sequence of tagged expressions.
pub open spec fn tagged_seq_view(s: Seq<TaggedExpression>) -> Seq<TaggedV>
    decreases s,
{
    if s.len() == 0 {
        Seq::empty()
    } else {
        tagged_seq_view(s.drop_last()).push(tagged_view(s.last()))
    }
}

/// The models of a sequence of named tagged expressions.
pub open spec fn tagged_fields_view(s: Seq<(Identifier, Box<TaggedExpression>)>) -> Seq<
    (Seq<char>, TaggedV),
>
    decreases s,
{
    if s.len() == 0 {
        Seq::empty()
    } else {
        tagged_fields_view(s.drop_last()).push((s.last().0@, tagged_view(*s.last().1)))
    }
}

/// The model of a tagged statement.
pub open spec fn tagged_statement_view(s: TaggedStatement) -> TaggedStatementV
    decreases s,
{
    match s {
        TaggedStatement::Expression(e) => TaggedStatementV::Expression(tagged_view(e)),
        TaggedStatement::ExternFunctionDeclaration(d) => TaggedStatementV::ExternFunctionDeclaration(
            d@,
        ),
        TaggedStatement::FunctionDeclaration(d, b) => TaggedStatementV::FunctionDeclaration(
            d@,
            tagged_block_view(b@),
        ),
        TaggedStatement::StructDeclaration => TaggedStatementV::StructDeclaration,
        TaggedStatement::IfElse(c, b, e) => TaggedStatementV::IfElse(
            tagged_view(*c),
            tagged_block_view(b@),
            match e {
                Some(eb) => Some(tagged_block_view(eb@)),
                None => None,
            },
        ),
        TaggedStatement::Return(e) => TaggedStatementV::Return(
            match e {
                Some(x) => Some(tagged_view(x)),
                None => None,
            },
        ),
    }
}

/// The models of a block of tagged statements.
pub open spec fn tagged_block_view(s: Seq<TaggedStatement>) -> Seq<TaggedStatementV>
    decreases s,
{
    if s.len() == 0 {
        Seq::empty()
    } else {
        tagged_block_view(s.drop_last()).push(tagged_statement_view(s.last()))
    }
}

impl View for TaggedExpression {
    type V = TaggedV;

    open spec fn view(&self) -> TaggedV {
        tagged_view(*self)
    }
}

impl View for TaggedStatement {
    type V = TaggedStatementV;

    open spec fn view(&self) -> TaggedStatementV {
        tagged_statement_view(*self)
    }
}

/// `tagged_seq_view` maps each element by `tagged_view`.
pub proof fn lemma_tagged_seq_view(s: Seq<TaggedExpression>)
    ensures
        tagged_seq_view(s).len() == s.len(),
        forall|i: int| 0 <= i < s.len() ==> #[trigger] tagged_seq_view(s)[i] == tagged_view(s[i]),
    decreases s.len(),
{
    if s.len() > 0 {
        lemma_tagged_seq_view(s.drop_last());
    }
}

/// `tagged_fields_view` maps each element.
pub proof fn lemma_tagged_fields_view(s: Seq<(Identifier, Box<TaggedExpression>)>)
    ensures
        tagged_fields_view(s).len() == s.len(),
        forall|i: int|
            0 <= i < s.len() ==> #[trigger] tagged_fields_view(s)[i] == (
                s[i].0@,
                tagged_view(*s[i].1),
            ),
    decreases s.len(),
{
    if s.len() > 0 {
        lemma_tagged_fields_view(s.drop_last());
    }
}

/// `tagged_block_view` maps each element.
pub proof fn lemma_tagged_block_view(s: Seq<TaggedStatement>)
    ensures
        tagged_block_view(s).len() == s.len(),
        forall|i: int|
            0 <= i < s.len() ==> #[trigger] tagged_block_view(s)[i] == tagged_statement_view(s[i]),
    decreases s.len(),
{
    if s.len() > 0 {
        lemma_tagged_block_view(s.drop_last());
    }
}

/// An applied constructor without arguments.
pub open spec fn simple(c: ConstructorV) -> TypeV {
    TypeV::Apply(c, Seq::empty())
}

/// The type of a tagged expression.  A comparison is a `Bool`, and any
/// other binary operation a `Float`.  A variable declaration has no type
/// that can be asked for.
pub open spec fn tagged_type(e: TaggedV) -> Option<TypeV> {
    match e {
        TaggedV::BracketAccess(_, _, t) => Some(t),
        TaggedV::Array(_, t) => Some(t),
        TaggedV::Assignment(_, _, t) => Some(t),
        TaggedV::FunctionCall(_, _, _, t) => Some(t),
        TaggedV::StructInstantiation(t, _) => Some(t),
        TaggedV::Unary(_, _, t) => Some(t),
        TaggedV::Identifier(_, _, t) => Some(t),
        TaggedV::And(_, _) => Some(simple(ConstructorV::Bool)),
        TaggedV::Or(_, _) => Some(simple(ConstructorV::Bool)),
        TaggedV::Boolean(_) => Some(simple(ConstructorV::Bool)),
        TaggedV::Float(_, _) => Some(simple(ConstructorV::Float)),
        TaggedV::Int(_, _) => Some(simple(ConstructorV::Int)),
        TaggedV::Str(_, _) => Some(simple(ConstructorV::Str)),
        TaggedV::Operation(_, op, _, _, _) => match op {
            Operation::Equals | Operation::NotEquals | Operation::GreaterThan
            | Operation::LessThan => Some(simple(ConstructorV::Bool)),
            _ => Some(simple(ConstructorV::Float)),
        },
        TaggedV::Variable(_, _, _, _) => None,
    }
}

/// An applied constructor without arguments.
pub fn simple_type(c: TypeConstructor) -> (r: Type)
    ensures
        r@ == TypeV::Apply(c@, Seq::empty()),
{
    let ghost cv = c@;
    let v: Vec<Type> = Vec::new();
    assert(crate::roxc::semant::types::tys_view(v@) =~= Seq::<TypeV>::empty());
    let r = Type::Apply(c, v);
    assert(r@ == TypeV::Apply(cv, Seq::empty()));
    r
}

impl TaggedExpression {
    /// The type of the expression; `None` for a variable declaration,
    /// whose type cannot be asked for.
    pub fn type_of(&self) -> (r: Option<Type>)
        ensures
            r is Some <==> tagged_type(self@) is Some,
            r matches Some(t) ==> t@ == tagged_type(self@).unwrap(),
    {
        match self {
            TaggedExpression::BracketAccess(_, _, t) => Some(t.duplicate()),
            TaggedExpression::Array(_, t) => Some(t.duplicate()),
            TaggedExpression::Assignment(_, _, t) => Some(t.duplicate()),
            TaggedExpression::FunctionCall(_, _, t) => Some(t.duplicate()),
            TaggedExpression::StructInstantiation(t, _) => Some(t.duplicate()),
            TaggedExpression::Unary(_, _, t) => Some(t.duplicate()),
            TaggedExpression::Identifier(_, t) => Some(t.duplicate()),
            TaggedExpression::And(_, _) => Some(simple_type(TypeConstructor::Bool)),
            TaggedExpression::Or(_, _) => Some(simple_type(TypeConstructor::Bool)),
            TaggedExpression::Boolean(_) => Some(simple_type(TypeConstructor::Bool)),
            TaggedExpression::Float(_) => Some(simple_type(TypeConstructor::Float)),
            TaggedExpression::Int(_) => Some(simple_type(TypeConstructor::Int)),
            TaggedExpression::String(_) => Some(simple_type(TypeConstructor::String)),
            TaggedExpression::Operation(_, operation, _, _) => match operation.value {
                Operation::Equals | Operation::NotEquals | Operation::GreaterThan
                | Operation::LessThan => Some(simple_type(TypeConstructor::Bool)),
                _ => Some(simple_type(TypeConstructor::Float)),
            },
            TaggedExpression::Variable(_, _, _) => None,
        }
    }
}

/// Checks that a statement may stand at the top level of a program, where
/// code is generated: a function, an external function or a structure
/// declaration may; an expression, a conditional or a return may not.
pub fn check_top_level(statement: &TaggedStatement) -> (r: crate::roxc::errors::Result<()>)
    ensures
        r is Ok <==> (statement is ExternFunctionDeclaration || statement is FunctionDeclaration
            || statement is StructDeclaration),
        r matches Err(e) ==> placeholder_error(e, "Cannot use expression at the top level"@),
{
    match statement {
        TaggedStatement::ExternFunctionDeclaration(_)
        | TaggedStatement::FunctionDeclaration(_, _)
        | TaggedStatement::StructDeclaration => Ok(()),
        TaggedStatement::Expression(_)
        | TaggedStatement::IfElse(_, _, _)
        | TaggedStatement::Return(_) => Err(
            RoxError::with_file_placeholder("Cannot use expression at the top level"),
        ),
    }
}

} // verus!
