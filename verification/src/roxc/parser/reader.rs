//! The parser: it reads the syntax tree of a program from its tokens, as
//! the grammar describes it.
use vstd::prelude::*;
use crate::roxc::parser::grammar::{
    array_name, binary_rest, binop, block_from, combine, expect, expr_list_rest, expression_starts,
    field_list_rest, kind_at, levels, or_none, param_list_rest, parse_binary, parse_block,
    parse_expr, parse_expr_list, parse_extern, parse_field, parse_field_list, parse_formals,
    parse_function, parse_if, parse_name_expr, parse_name_list, parse_param, parse_param_list,
    parse_primary, parse_program, parse_return_type, parse_statement, parse_struct,
    parse_turbofish, parse_type, parse_type_list, parse_unary, postfix_rest, span_at, text_at,
    type_list_rest, BinOp, ParseFailureV, Read,
};
use crate::roxc::parser::lexer::{tokens_view, Token, TokenKind, TokenV};
use crate::roxc::parser::syntax::{
    expression_view, expressions_view, field_expressions_view, opt_names_view, opt_type_name_view,
    params_view, statement_view, statements_view, type_name_view, type_names_view, Expression,
    ExpressionV, LValue, Operation, Param, Span, Spanned, Statement, StatementV,
    TypeName, TypeNameV, Unary,
};
use crate::roxc::semant::types::{names_view, Identifier};

verus! {

broadcast use vstd::seq::group_seq_axioms, vstd::std_specs::vec::group_vec_axioms;

/// Where reading failed: the token position, and the kinds of tokens that
/// could have stood there.
#[derive(Debug)]
pub struct ParseFailure {
    pub at: usize,
    pub expected: Vec<TokenKind>,
}

impl View for ParseFailure {
    type V = ParseFailureV;

    open spec fn view(&self) -> ParseFailureV {
        ParseFailureV { at: self.at as int, expected: self.expected@ }
    }
}

/// Whether an executable reading is the one the grammar gives, by the
/// model `f`; a reading consumes at least one token.
pub open spec fn reads<T, V>(
    r: Result<(T, usize), ParseFailure>,
    s: Read<V>,
    f: spec_fn(T) -> V,
    pos: int,
    len: int,
) -> bool {
    match s {
        Ok((v, p)) => r matches Ok((x, q)) && f(x) == v && q as int == p && pos < p <= len,
        Err(e) => r matches Err(x) && x@ == e,
    }
}

/// As `reads`, for the rest of a list or of an expression, which may
/// consume nothing.
pub open spec fn reads_rest<T, V>(
    r: Result<(T, usize), ParseFailure>,
    s: Read<V>,
    f: spec_fn(T) -> V,
    pos: int,
    len: int,
) -> bool {
    match s {
        Ok((v, p)) => r matches Ok((x, q)) && f(x) == v && q as int == p && pos <= p <= len,
        Err(e) => r matches Err(x) && x@ == e,
    }
}

/// The model of a boxed type name.
pub open spec fn boxed_type_view() -> spec_fn(Box<TypeName>) -> TypeNameV {
    |t: Box<TypeName>| type_name_view(*t)
}

/// The model of a list of type names.
pub open spec fn type_list_view() -> spec_fn(Vec<Box<TypeName>>) -> Seq<TypeNameV> {
    |v: Vec<Box<TypeName>>| type_names_view(v@)
}

/// The model of a boxed expression.
pub open spec fn boxed_expr_view() -> spec_fn(Box<Expression>) -> ExpressionV {
    |e: Box<Expression>| expression_view(*e)
}

/// The model of a list of expressions.
pub open spec fn expr_list_view() -> spec_fn(Vec<Box<Expression>>) -> Seq<ExpressionV> {
    |v: Vec<Box<Expression>>| expressions_view(v@)
}

/// The model of a list of parameters.
pub open spec fn param_list_view() -> spec_fn(Vec<Param>) -> Seq<(Seq<char>, TypeNameV)> {
    |v: Vec<Param>| params_view(v@)
}

/// The model of a list of fields.
pub open spec fn field_list_view() -> spec_fn(Vec<(Identifier, Box<Expression>)>) -> Seq<(Seq<char>, ExpressionV)> {
    |v: Vec<(Identifier, Box<Expression>)>| field_expressions_view(v@)
}

/// The model of a list of statements.
pub open spec fn statement_list_view() -> spec_fn(Vec<Box<Statement>>) -> Seq<StatementV> {
    |v: Vec<Box<Statement>>| statements_view(v@)
}

/// The tokens are few enough that positions past them can be counted.
pub open spec fn countable(toks: Seq<Token>) -> bool {
    toks.len() + 8 <= usize::MAX
}

/// A list of type names has as many models as names.
proof fn lemma_type_names_len(s: Seq<Box<TypeName>>)
    ensures
        type_names_view(s).len() == s.len(),
    decreases s.len(),
{
    if s.len() > 0 {
        lemma_type_names_len(s.drop_last());
    }
}

/// Appending a type name appends its model.
proof fn lemma_push_type_names(s: Seq<Box<TypeName>>, x: Box<TypeName>)
    ensures
        type_names_view(s.push(x)) == type_names_view(s).push(type_name_view(*x)),
        type_names_view(Seq::<Box<TypeName>>::empty()) == Seq::<TypeNameV>::empty(),
{
    assert(s.push(x).drop_last() =~= s);
}

/// Appending an expression appends its model.
proof fn lemma_push_expressions(s: Seq<Box<Expression>>, x: Box<Expression>)
    ensures
        expressions_view(s.push(x)) == expressions_view(s).push(expression_view(*x)),
        expressions_view(Seq::<Box<Expression>>::empty()) == Seq::<ExpressionV>::empty(),
{
    assert(s.push(x).drop_last() =~= s);
}

/// Appending a parameter appends its model.
proof fn lemma_push_params(s: Seq<Param>, x: Param)
    ensures
        params_view(s.push(x)) == params_view(s).push((x.0@, type_name_view(*x.1))),
        params_view(Seq::<Param>::empty()) == Seq::<(Seq<char>, TypeNameV)>::empty(),
{
    assert(s.push(x).drop_last() =~= s);
}

/// Appending a field appends its model.
proof fn lemma_push_fields(s: Seq<(Identifier, Box<Expression>)>, x: (Identifier, Box<Expression>))
    ensures
        field_expressions_view(s.push(x)) == field_expressions_view(s).push((x.0@, expression_view(*x.1))),
        field_expressions_view(Seq::<(Identifier, Box<Expression>)>::empty()) == Seq::<
            (Seq<char>, ExpressionV),
        >::empty(),
{
    assert(s.push(x).drop_last() =~= s);
}

/// Appending a statement appends its model.
proof fn lemma_push_statements(s: Seq<Box<Statement>>, x: Box<Statement>)
    ensures
        statements_view(s.push(x)) == statements_view(s).push(statement_view(*x)),
        statements_view(Seq::<Box<Statement>>::empty()) == Seq::<StatementV>::empty(),
{
    assert(s.push(x).drop_last() =~= s);
}

/// A failure at `pos` with the given expected kinds.
fn failure<T>(pos: usize, expected: Vec<TokenKind>) -> (r: Result<T, ParseFailure>)
    ensures
        r matches Err(x) && x@ == (ParseFailureV { at: pos as int, expected: expected@ }),
{
    Err(ParseFailure { at: pos, expected })
}

/// No expected kinds.
fn kinds0() -> (r: Vec<TokenKind>)
    ensures
        r@ == Seq::<TokenKind>::empty(),
{
    let r: Vec<TokenKind> = Vec::new();
    assert(r@ =~= Seq::<TokenKind>::empty());
    r
}

/// One expected kind.
fn kinds1(a: TokenKind) -> (r: Vec<TokenKind>)
    ensures
        r@ == seq![a],
{
    let mut r: Vec<TokenKind> = Vec::new();
    r.push(a);
    assert(r@ =~= seq![a]);
    r
}

/// Two expected kinds.
fn kinds2(a: TokenKind, b: TokenKind) -> (r: Vec<TokenKind>)
    ensures
        r@ == seq![a, b],
{
    let mut r: Vec<TokenKind> = Vec::new();
    r.push(a);
    r.push(b);
    assert(r@ =~= seq![a, b]);
    r
}

/// The kind of the token at `pos`.
fn kind_of(toks: &Vec<Token>, pos: usize) -> (r: TokenKind)
    ensures
        r == kind_at(tokens_view(toks@), pos as int),
{
    if pos < toks.len() {
        toks[pos].kind
    } else {
        TokenKind::Eof
    }
}

/// The text of the token at `pos`, with its span.
fn name_at(toks: &Vec<Token>, pos: usize) -> (r: Spanned<Identifier>)
    requires
        pos < toks@.len(),
    ensures
        r.value@ == text_at(tokens_view(toks@), pos as int),
        r.span == span_at(tokens_view(toks@), pos as int),
{
    Spanned { value: toks[pos].text.clone(), span: Span(toks[pos].start, toks[pos].end) }
}

/// Reads a type name.
pub fn read_type(toks: &Vec<Token>, pos: usize) -> (r: Result<(Box<TypeName>, usize), ParseFailure>)
    requires
        countable(toks@),
    ensures
        reads(r, parse_type(tokens_view(toks@), pos as int), boxed_type_view(), pos as int, toks@.len() as int),
    decreases toks@.len() - pos, 3nat,
{
    let ghost ts = tokens_view(toks@);
    if pos >= toks.len() {
        return failure(pos, kinds2(TokenKind::Identifier, TokenKind::Fn));
    }
    let k = kind_of(toks, pos);
    if k == TokenKind::Identifier {
        let name = name_at(toks, pos);
        if kind_of(toks, pos + 1) == TokenKind::Less {
            let (mut args, p) = match read_type_list(toks, pos + 2, TokenKind::Greater) {
                Ok(x) => x,
                Err(e) => return Err(e),
            };
            let is_array = name.value == "Array".to_owned();
            proof {
                lemma_type_names_len(args@);
                reveal_strlit("Array");
                assert("Array"@ =~= array_name());
            }
            if is_array && args.len() == 1 {
                let ghost a0 = args@;
                let inner = match args.pop() {
                    Some(t) => t,
                    None => return failure(pos, kinds0()),
                };
                proof {
                    assert(a0 =~= Seq::<Box<TypeName>>::empty().push(inner));
                    lemma_push_type_names(Seq::<Box<TypeName>>::empty(), inner);
                }
                Ok((Box::new(TypeName::ArrayType(inner)), p))
            } else {
                Ok((Box::new(TypeName::GenericType(name, args)), p))
            }
        } else {
            Ok((Box::new(TypeName::Type(name)), pos + 1))
        }
    } else if k == TokenKind::Fn {
        if kind_of(toks, pos + 1) != TokenKind::LeftParen {
            return failure(pos + 1, kinds1(TokenKind::LeftParen));
        }
        let (args, p) = match read_type_list(toks, pos + 2, TokenKind::RightParen) {
            Ok(x) => x,
            Err(e) => return Err(e),
        };
        if p >= toks.len() {
            return failure(p, kinds0());
        }
        if kind_of(toks, p) != TokenKind::Arrow {
            return failure(p, kinds1(TokenKind::Arrow));
        }
        let (ret, p2) = match read_type(toks, p + 1) {
            Ok(x) => x,
            Err(e) => return Err(e),
        };
        Ok((Box::new(TypeName::Function(args, ret)), p2))
    } else {
        failure(pos, kinds2(TokenKind::Identifier, TokenKind::Fn))
    }
}

/// Reads type names separated by commas, up to the closing token `close`.
pub fn read_type_list(toks: &Vec<Token>, pos: usize, close: TokenKind) -> (r: Result<(Vec<Box<TypeName>>, usize), ParseFailure>)
    requires
        close != TokenKind::Eof,
        countable(toks@),
        pos <= toks@.len() + 2,
    ensures
        reads(r, parse_type_list(tokens_view(toks@), pos as int, close), type_list_view(), pos as int, toks@.len() as int),
    decreases toks@.len() - pos, 5nat,
{
    if pos >= toks.len() {
        return failure(pos, kinds1(close));
    }
    if kind_of(toks, pos) == close {
        let v: Vec<Box<TypeName>> = Vec::new();
        assert(type_names_view(v@) =~= Seq::<TypeNameV>::empty());
        return Ok((v, pos + 1));
    }
    let (t, p) = match read_type(toks, pos) {
        Ok(x) => x,
        Err(e) => return Err(e),
    };
    let mut acc: Vec<Box<TypeName>> = Vec::new();
    proof {
        lemma_push_type_names(acc@, t);
    }
    acc.push(t);
    read_type_list_rest(toks, p, close, acc)
}

/// Reads the rest of a list of type names, after those in `acc`.
fn read_type_list_rest(
    toks: &Vec<Token>,
    pos: usize,
    close: TokenKind,
    acc: Vec<Box<TypeName>>,
) -> (r: Result<(Vec<Box<TypeName>>, usize), ParseFailure>)
    requires
        close != TokenKind::Eof,
        countable(toks@),
        pos <= toks@.len(),
    ensures
        reads_rest(
            r,
            type_list_rest(tokens_view(toks@), pos as int, close, type_names_view(acc@)),
            type_list_view(),
            pos as int,
            toks@.len() as int,
        ),
    decreases toks@.len() - pos, 4nat,
{
    if pos >= toks.len() {
        return failure(pos, kinds2(TokenKind::Comma, close));
    }
    let k = kind_of(toks, pos);
    if k == close {
        return Ok((acc, pos + 1));
    }
    if k != TokenKind::Comma {
        return failure(pos, kinds2(TokenKind::Comma, close));
    }
    if kind_of(toks, pos + 1) == close {
        return Ok((acc, pos + 2));
    }
    let (t, p) = match read_type(toks, pos + 1) {
        Ok(x) => x,
        Err(e) => return Err(e),
    };
    let mut acc = acc;
    proof {
        lemma_push_type_names(acc@, t);
    }
    acc.push(t);
    read_type_list_rest(toks, p, close, acc)
}

/// Reads names separated by commas, up to a closing `>`.
fn read_name_list(toks: &Vec<Token>, pos: usize, acc: Vec<Identifier>) -> (r: Result<(Vec<Identifier>, usize), ParseFailure>)
    requires
        countable(toks@),
        pos <= toks@.len() + 2,
    ensures
        reads_rest(
            r,
            parse_name_list(tokens_view(toks@), pos as int, names_view(acc@)),
            |v: Vec<Identifier>| names_view(v@),
            pos as int,
            toks@.len() as int,
        ),
    decreases toks@.len() - pos,
{
    if pos >= toks.len() {
        return failure(pos, kinds2(TokenKind::Identifier, TokenKind::Greater));
    }
    let k = kind_of(toks, pos);
    if k == TokenKind::Greater {
        return Ok((acc, pos + 1));
    }
    if k != TokenKind::Identifier {
        return failure(pos, kinds2(TokenKind::Identifier, TokenKind::Greater));
    }
    let next = kind_of(toks, pos + 1);
    if next == TokenKind::Comma || next == TokenKind::Greater {
        let mut acc = acc;
        let ghost a0 = acc@;
        acc.push(toks[pos].text.clone());
        assert(names_view(acc@) =~= names_view(a0).push(text_at(tokens_view(toks@), pos as int)));
        if next == TokenKind::Comma {
            read_name_list(toks, pos + 2, acc)
        } else {
            Ok((acc, pos + 2))
        }
    } else {
        failure(pos + 1, kinds2(TokenKind::Comma, TokenKind::Greater))
    }
}

/// Reads formal type parameters between `<` and `>`, where they are
/// written.
fn read_formals(toks: &Vec<Token>, pos: usize) -> (r: Result<(Option<Vec<Identifier>>, usize), ParseFailure>)
    requires
        countable(toks@),
        pos <= toks@.len() + 2,
    ensures
        reads_rest(
            r,
            parse_formals(tokens_view(toks@), pos as int),
            |o: Option<Vec<Identifier>>| opt_names_view(o),
            pos as int,
            toks@.len() as int + 2,
        ),
{
    if kind_of(toks, pos) == TokenKind::Less {
        let v: Vec<Identifier> = Vec::new();
        assert(names_view(v@) =~= Seq::<Seq<char>>::empty());
        match read_name_list(toks, pos + 1, v) {
            Ok((ns, p)) => Ok((Some(ns), p)),
            Err(e) => Err(e),
        }
    } else {
        Ok((None, pos))
    }
}

/// Reads a parameter: a name, a colon and a type name.
fn read_param(toks: &Vec<Token>, pos: usize) -> (r: Result<(Param, usize), ParseFailure>)
    requires
        countable(toks@),
    ensures
        reads(
            r,
            parse_param(tokens_view(toks@), pos as int),
            |x: Param| (x.0@, type_name_view(*x.1)),
            pos as int,
            toks@.len() as int,
        ),
    decreases toks@.len() - pos, 6nat,
{
    if pos >= toks.len() || kind_of(toks, pos) != TokenKind::Identifier {
        return failure(pos, kinds1(TokenKind::Identifier));
    }
    if kind_of(toks, pos + 1) != TokenKind::Colon {
        return failure(pos + 1, kinds1(TokenKind::Colon));
    }
    let (t, p) = match read_type(toks, pos + 2) {
        Ok(x) => x,
        Err(e) => return Err(e),
    };
    Ok(((toks[pos].text.clone(), t), p))
}

/// Reads parameters separated by commas, up to the closing token `close`.
fn read_param_list(toks: &Vec<Token>, pos: usize, close: TokenKind) -> (r: Result<(Vec<Param>, usize), ParseFailure>)
    requires
        close != TokenKind::Eof,
        countable(toks@),
        pos <= toks@.len() + 2,
    ensures
        reads(r, parse_param_list(tokens_view(toks@), pos as int, close), param_list_view(), pos as int, toks@.len() as int),
    decreases toks@.len() - pos, 8nat,
{
    if pos >= toks.len() {
        return failure(pos, kinds1(close));
    }
    if kind_of(toks, pos) == close {
        let v: Vec<Param> = Vec::new();
        assert(params_view(v@) =~= Seq::<(Seq<char>, TypeNameV)>::empty());
        return Ok((v, pos + 1));
    }
    let (x, p) = match read_param(toks, pos) {
        Ok(x) => x,
        Err(e) => return Err(e),
    };
    let mut acc: Vec<Param> = Vec::new();
    proof {
        lemma_push_params(acc@, x);
    }
    acc.push(x);
    read_param_list_rest(toks, p, close, acc)
}

/// Reads the rest of a list of parameters, after those in `acc`.
fn read_param_list_rest(
    toks: &Vec<Token>,
    pos: usize,
    close: TokenKind,
    acc: Vec<Param>,
) -> (r: Result<(Vec<Param>, usize), ParseFailure>)
    requires
        close != TokenKind::Eof,
        countable(toks@),
        pos <= toks@.len(),
    ensures
        reads_rest(
            r,
            param_list_rest(tokens_view(toks@), pos as int, close, params_view(acc@)),
            param_list_view(),
            pos as int,
            toks@.len() as int,
        ),
    decreases toks@.len() - pos, 7nat,
{
    if pos >= toks.len() {
        return failure(pos, kinds2(TokenKind::Comma, close));
    }
    let k = kind_of(toks, pos);
    if k == close {
        return Ok((acc, pos + 1));
    }
    if k != TokenKind::Comma {
        return failure(pos, kinds2(TokenKind::Comma, close));
    }
    if kind_of(toks, pos + 1) == close {
        return Ok((acc, pos + 2));
    }
    let (x, p) = match read_param(toks, pos + 1) {
        Ok(x) => x,
        Err(e) => return Err(e),
    };
    let mut acc = acc;
    proof {
        lemma_push_params(acc@, x);
    }
    acc.push(x);
    read_param_list_rest(toks, p, close, acc)
}

/// Reads an optional return type: `->` and a type name.
fn read_return_type(toks: &Vec<Token>, pos: usize) -> (r: Result<(Option<Box<TypeName>>, usize), ParseFailure>)
    requires
        countable(toks@),
        pos <= toks@.len() + 2,
    ensures
        reads_rest(
            r,
            parse_return_type(tokens_view(toks@), pos as int),
            |o: Option<Box<TypeName>>| opt_type_name_view(o),
            pos as int,
            toks@.len() as int + 2,
        ),
{
    if kind_of(toks, pos) == TokenKind::Arrow {
        match read_type(toks, pos + 1) {
            Ok((t, p)) => Ok((Some(t), p)),
            Err(e) => Err(e),
        }
    } else {
        Ok((None, pos))
    }
}

/// Reads an expression.
pub fn read_expr(toks: &Vec<Token>, pos: usize) -> (r: Result<(Box<Expression>, usize), ParseFailure>)
    requires
        countable(toks@),
    ensures
        reads(r, parse_expr(tokens_view(toks@), pos as int), boxed_expr_view(), pos as int, toks@.len() as int),
    decreases toks@.len() - pos, 30nat,
{
    if pos >= toks.len() {
        return failure(pos, kinds0());
    }
    if kind_of(toks, pos) == TokenKind::Let {
        if kind_of(toks, pos + 1) != TokenKind::Identifier {
            return failure(pos + 1, kinds1(TokenKind::Identifier));
        }
        if kind_of(toks, pos + 2) != TokenKind::Equal {
            return failure(pos + 2, kinds1(TokenKind::Equal));
        }
        let name = name_at(toks, pos + 1);
        let (e, p) = match read_expr(toks, pos + 3) {
            Ok(x) => x,
            Err(e) => return Err(e),
        };
        return Ok((Box::new(Expression::Variable(name, e)), p));
    }
    let (lhs, p) = match read_binary(toks, pos, 0) {
        Ok(x) => x,
        Err(e) => return Err(e),
    };
    if p >= toks.len() {
        return failure(p, kinds0());
    }
    if kind_of(toks, p) == TokenKind::Equal {
        let (rhs, p2) = match read_expr(toks, p + 1) {
            Ok(x) => x,
            Err(e) => return Err(e),
        };
        Ok((Box::new(Expression::Assignment(Box::new(LValue(*lhs)), rhs)), p2))
    } else {
        Ok((lhs, p))
    }
}

/// The operator of the given precedence level that a token is.
fn binop_of(k: TokenKind, level: usize) -> (r: Option<BinOp>)
    ensures
        r == binop(k, level as nat),
{
    if level == 0 && k == TokenKind::OrOr {
        Some(BinOp::Or)
    } else if level == 1 && k == TokenKind::AndAnd {
        Some(BinOp::And)
    } else if level == 2 && k == TokenKind::EqualEqual {
        Some(BinOp::Op(Operation::Equals))
    } else if level == 2 && k == TokenKind::BangEqual {
        Some(BinOp::Op(Operation::NotEquals))
    } else if level == 3 && k == TokenKind::Less {
        Some(BinOp::Op(Operation::LessThan))
    } else if level == 3 && k == TokenKind::Greater {
        Some(BinOp::Op(Operation::GreaterThan))
    } else if level == 4 && k == TokenKind::Plus {
        Some(BinOp::Op(Operation::Add))
    } else if level == 4 && k == TokenKind::Minus {
        Some(BinOp::Op(Operation::Subtract))
    } else if level == 5 && k == TokenKind::Star {
        Some(BinOp::Op(Operation::Multiply))
    } else if level == 5 && k == TokenKind::Slash {
        Some(BinOp::Op(Operation::Divide))
    } else {
        None
    }
}

/// Reads an expression whose binary operators bind at least as tightly as
/// `level`.
fn read_binary(toks: &Vec<Token>, pos: usize, level: usize) -> (r: Result<(Box<Expression>, usize), ParseFailure>)
    requires
        countable(toks@),
        level <= 6,
    ensures
        reads(
            r,
            parse_binary(tokens_view(toks@), pos as int, level as nat),
            boxed_expr_view(),
            pos as int,
            toks@.len() as int,
        ),
    decreases toks@.len() - pos, if level >= 6 { 11nat } else { (20 - level) as nat },
{
    if pos >= toks.len() {
        return failure(pos, kinds0());
    }
    if level >= 6 {
        return read_unary(toks, pos);
    }
    let (lhs, p) = match read_binary(toks, pos, level + 1) {
        Ok(x) => x,
        Err(e) => return Err(e),
    };
    read_binary_rest(toks, p, level, lhs)
}

/// Reads the operators of `level` and their right operands after `lhs`.
fn read_binary_rest(
    toks: &Vec<Token>,
    pos: usize,
    level: usize,
    lhs: Box<Expression>,
) -> (r: Result<(Box<Expression>, usize), ParseFailure>)
    requires
        countable(toks@),
        pos <= toks@.len(),
        level < 6,
    ensures
        reads_rest(
            r,
            binary_rest(tokens_view(toks@), pos as int, level as nat, expression_view(*lhs)),
            boxed_expr_view(),
            pos as int,
            toks@.len() as int,
        ),
    decreases toks@.len() - pos, 0nat,
{
    if pos >= toks.len() {
        return Ok((lhs, pos));
    }
    let op = match binop_of(kind_of(toks, pos), level) {
        Some(op) => op,
        None => return Ok((lhs, pos)),
    };
    let (rhs, p) = match read_binary(toks, pos + 1, level + 1) {
        Ok(x) => x,
        Err(e) => return Err(e),
    };
    let span = Span(toks[pos].start, toks[pos].end);
    let combined = match op {
        BinOp::Or => Expression::Or(lhs, rhs),
        BinOp::And => Expression::And(lhs, rhs),
        BinOp::Op(o) => Expression::Operation(lhs, Spanned { value: o, span }, rhs),
    };
    read_binary_rest(toks, p, level, Box::new(combined))
}

/// Reads an expression with prefix operators.
fn read_unary(toks: &Vec<Token>, pos: usize) -> (r: Result<(Box<Expression>, usize), ParseFailure>)
    requires
        countable(toks@),
    ensures
        reads(r, parse_unary(tokens_view(toks@), pos as int), boxed_expr_view(), pos as int, toks@.len() as int),
    decreases toks@.len() - pos, 10nat,
{
    if pos >= toks.len() {
        return failure(pos, kinds0());
    }
    let k = kind_of(toks, pos);
    if k == TokenKind::Bang || k == TokenKind::Minus {
        let u = if k == TokenKind::Bang {
            Unary::Not
        } else {
            Unary::Negate
        };
        let (e, p) = match read_unary(toks, pos + 1) {
            Ok(x) => x,
            Err(e) => return Err(e),
        };
        return Ok((Box::new(Expression::Unary(u, e)), p));
    }
    let (e, p) = match read_primary(toks, pos) {
        Ok(x) => x,
        Err(e) => return Err(e),
    };
    read_postfix_rest(toks, p, e)
}

/// Reads indexing and field access after `e`.
fn read_postfix_rest(toks: &Vec<Token>, pos: usize, e: Box<Expression>) -> (r: Result<(Box<Expression>, usize), ParseFailure>)
    requires
        countable(toks@),
        pos <= toks@.len(),
    ensures
        reads_rest(
            r,
            postfix_rest(tokens_view(toks@), pos as int, expression_view(*e)),
            boxed_expr_view(),
            pos as int,
            toks@.len() as int,
        ),
    decreases toks@.len() - pos, 0nat,
{
    if pos >= toks.len() {
        return Ok((e, pos));
    }
    let k = kind_of(toks, pos);
    if k == TokenKind::LeftBracket {
        let (i, p) = match read_expr(toks, pos + 1) {
            Ok(x) => x,
            Err(x) => return Err(x),
        };
        if p >= toks.len() {
            return failure(p, kinds0());
        }
        if kind_of(toks, p) != TokenKind::RightBracket {
            return failure(p, kinds1(TokenKind::RightBracket));
        }
        read_postfix_rest(toks, p + 1, Box::new(Expression::BracketAccess(e, i)))
    } else if k == TokenKind::Dot {
        if kind_of(toks, pos + 1) != TokenKind::Identifier {
            return failure(pos + 1, kinds1(TokenKind::Identifier));
        }
        let name = name_at(toks, pos + 1);
        read_postfix_rest(toks, pos + 2, Box::new(Expression::DotAccess(e, name)))
    } else {
        Ok((e, pos))
    }
}

/// The tokens that can start an expression.
fn expression_start_kinds() -> (r: Vec<TokenKind>)
    ensures
        r@ == expression_starts(),
{
    let mut r: Vec<TokenKind> = Vec::new();
    r.push(TokenKind::Number);
    r.push(TokenKind::Str);
    r.push(TokenKind::True);
    r.push(TokenKind::False);
    r.push(TokenKind::Identifier);
    r.push(TokenKind::LeftParen);
    r.push(TokenKind::LeftBracket);
    r.push(TokenKind::Bang);
    r.push(TokenKind::Minus);
    r.push(TokenKind::Let);
    assert(r@ =~= expression_starts());
    r
}

/// Reads a literal, a parenthesized expression, an array, or an
/// expression that starts with a name.
fn read_primary(toks: &Vec<Token>, pos: usize) -> (r: Result<(Box<Expression>, usize), ParseFailure>)
    requires
        countable(toks@),
    ensures
        reads(r, parse_primary(tokens_view(toks@), pos as int), boxed_expr_view(), pos as int, toks@.len() as int),
    decreases toks@.len() - pos, 8nat,
{
    if pos >= toks.len() {
        let starts = expression_start_kinds();
        return failure(pos, starts);
    }
    let k = kind_of(toks, pos);
    if k == TokenKind::Number {
        let x = name_at(toks, pos);
        Ok((Box::new(Expression::Float(x)), pos + 1))
    } else if k == TokenKind::Str {
        let x = name_at(toks, pos);
        Ok((Box::new(Expression::String(x)), pos + 1))
    } else if k == TokenKind::True {
        Ok((Box::new(Expression::Boolean(true)), pos + 1))
    } else if k == TokenKind::False {
        Ok((Box::new(Expression::Boolean(false)), pos + 1))
    } else if k == TokenKind::LeftParen {
        let (e, p) = match read_expr(toks, pos + 1) {
            Ok(x) => x,
            Err(x) => return Err(x),
        };
        if p >= toks.len() {
            return failure(p, kinds0());
        }
        if kind_of(toks, p) != TokenKind::RightParen {
            return failure(p, kinds1(TokenKind::RightParen));
        }
        Ok((e, p + 1))
    } else if k == TokenKind::LeftBracket {
        let (es, p) = match read_expr_list(toks, pos + 1, TokenKind::RightBracket) {
            Ok(x) => x,
            Err(x) => return Err(x),
        };
        Ok((Box::new(Expression::Array(es)), p))
    } else if k == TokenKind::Identifier {
        read_name_expr(toks, pos)
    } else {
        let starts = expression_start_kinds();
        failure(pos, starts)
    }
}

/// Reads the type arguments of a call or instantiation, `::<...>`, where
/// they are written.
fn read_turbofish(toks: &Vec<Token>, pos: usize) -> (r: Result<(Option<Vec<Box<TypeName>>>, usize), ParseFailure>)
    requires
        countable(toks@),
        pos <= toks@.len() + 1,
    ensures
        reads_rest(
            r,
            parse_turbofish(tokens_view(toks@), pos as int),
            |o: Option<Vec<Box<TypeName>>>| match o {
                Some(v) => Some(type_names_view(v@)),
                None => None,
            },
            pos as int,
            toks@.len() as int + 1,
        ),
{
    if kind_of(toks, pos) == TokenKind::ColonColon {
        if kind_of(toks, pos + 1) != TokenKind::Less {
            return failure(pos + 1, kinds1(TokenKind::Less));
        }
        match read_type_list(toks, pos + 2, TokenKind::Greater) {
            Ok((gs, p)) => Ok((Some(gs), p)),
            Err(e) => Err(e),
        }
    } else {
        Ok((None, pos))
    }
}

/// Reads a name, possibly with type arguments, used as a variable, called,
/// or instantiated as a structure.
fn read_name_expr(toks: &Vec<Token>, pos: usize) -> (r: Result<(Box<Expression>, usize), ParseFailure>)
    requires
        countable(toks@),
    ensures
        reads(r, parse_name_expr(tokens_view(toks@), pos as int), boxed_expr_view(), pos as int, toks@.len() as int),
    decreases toks@.len() - pos, 7nat,
{
    if pos >= toks.len() {
        return failure(pos, kinds1(TokenKind::Identifier));
    }
    let name = name_at(toks, pos);
    let (generics, p0) = match read_turbofish(toks, pos + 1) {
        Ok(x) => x,
        Err(e) => return Err(e),
    };
    if p0 > toks.len() {
        return failure(p0, kinds0());
    }
    let k = kind_of(toks, p0);
    if k == TokenKind::LeftParen {
        let (args, p) = match read_expr_list(toks, p0 + 1, TokenKind::RightParen) {
            Ok(x) => x,
            Err(e) => return Err(e),
        };
        let gs = match generics {
            Some(g) => g,
            None => {
                let v: Vec<Box<TypeName>> = Vec::new();
                assert(type_names_view(v@) =~= Seq::<TypeNameV>::empty());
                v
            },
        };
        Ok((Box::new(Expression::FunctionCall(name, gs, args)), p))
    } else if k == TokenKind::LeftBrace {
        let (fields, p) = match read_field_list(toks, p0 + 1) {
            Ok(x) => x,
            Err(e) => return Err(e),
        };
        Ok((Box::new(Expression::StructInstantiation(name, generics, fields)), p))
    } else if generics.is_some() {
        failure(p0, kinds2(TokenKind::LeftParen, TokenKind::LeftBrace))
    } else {
        Ok((Box::new(Expression::Identifier(name)), p0))
    }
}

/// Reads expressions separated by commas, up to the closing token `close`.
fn read_expr_list(toks: &Vec<Token>, pos: usize, close: TokenKind) -> (r: Result<(Vec<Box<Expression>>, usize), ParseFailure>)
    requires
        close != TokenKind::Eof,
        countable(toks@),
        pos <= toks@.len() + 2,
    ensures
        reads(r, parse_expr_list(tokens_view(toks@), pos as int, close), expr_list_view(), pos as int, toks@.len() as int),
    decreases toks@.len() - pos, 33nat,
{
    if pos >= toks.len() {
        return failure(pos, kinds1(close));
    }
    if kind_of(toks, pos) == close {
        let v: Vec<Box<Expression>> = Vec::new();
        assert(expressions_view(v@) =~= Seq::<ExpressionV>::empty());
        return Ok((v, pos + 1));
    }
    let (e, p) = match read_expr(toks, pos) {
        Ok(x) => x,
        Err(x) => return Err(x),
    };
    let mut acc: Vec<Box<Expression>> = Vec::new();
    proof {
        lemma_push_expressions(acc@, e);
    }
    acc.push(e);
    read_expr_list_rest(toks, p, close, acc)
}

/// Reads the rest of a list of expressions, after those in `acc`.
fn read_expr_list_rest(
    toks: &Vec<Token>,
    pos: usize,
    close: TokenKind,
    acc: Vec<Box<Expression>>,
) -> (r: Result<(Vec<Box<Expression>>, usize), ParseFailure>)
    requires
        close != TokenKind::Eof,
        countable(toks@),
        pos <= toks@.len(),
    ensures
        reads_rest(
            r,
            expr_list_rest(tokens_view(toks@), pos as int, close, expressions_view(acc@)),
            expr_list_view(),
            pos as int,
            toks@.len() as int,
        ),
    decreases toks@.len() - pos, 32nat,
{
    if pos >= toks.len() {
        return failure(pos, kinds2(TokenKind::Comma, close));
    }
    let k = kind_of(toks, pos);
    if k == close {
        return Ok((acc, pos + 1));
    }
    if k != TokenKind::Comma {
        return failure(pos, kinds2(TokenKind::Comma, close));
    }
    if kind_of(toks, pos + 1) == close {
        return Ok((acc, pos + 2));
    }
    let (e, p) = match read_expr(toks, pos + 1) {
        Ok(x) => x,
        Err(x) => return Err(x),
    };
    let mut acc = acc;
    proof {
        lemma_push_expressions(acc@, e);
    }
    acc.push(e);
    read_expr_list_rest(toks, p, close, acc)
}

/// Reads a field of a structure instantiation.
fn read_field(toks: &Vec<Token>, pos: usize) -> (r: Result<((Identifier, Box<Expression>), usize), ParseFailure>)
    requires
        countable(toks@),
    ensures
        reads(
            r,
            parse_field(tokens_view(toks@), pos as int),
            |x: (Identifier, Box<Expression>)| (x.0@, expression_view(*x.1)),
            pos as int,
            toks@.len() as int,
        ),
    decreases toks@.len() - pos, 34nat,
{
    if pos >= toks.len() || kind_of(toks, pos) != TokenKind::Identifier {
        return failure(pos, kinds1(TokenKind::Identifier));
    }
    if kind_of(toks, pos + 1) != TokenKind::Colon {
        return failure(pos + 1, kinds1(TokenKind::Colon));
    }
    let (e, p) = match read_expr(toks, pos + 2) {
        Ok(x) => x,
        Err(x) => return Err(x),
    };
    Ok(((toks[pos].text.clone(), e), p))
}

/// Reads fields separated by commas, up to a closing `}`.
fn read_field_list(toks: &Vec<Token>, pos: usize) -> (r: Result<(Vec<(Identifier, Box<Expression>)>, usize), ParseFailure>)
    requires
        countable(toks@),
        pos <= toks@.len() + 2,
    ensures
        reads(r, parse_field_list(tokens_view(toks@), pos as int), field_list_view(), pos as int, toks@.len() as int),
    decreases toks@.len() - pos, 36nat,
{
    if pos >= toks.len() {
        return failure(pos, kinds1(TokenKind::RightBrace));
    }
    if kind_of(toks, pos) == TokenKind::RightBrace {
        let v: Vec<(Identifier, Box<Expression>)> = Vec::new();
        assert(field_expressions_view(v@) =~= Seq::<(Seq<char>, ExpressionV)>::empty());
        return Ok((v, pos + 1));
    }
    let (f, p) = match read_field(toks, pos) {
        Ok(x) => x,
        Err(x) => return Err(x),
    };
    let mut acc: Vec<(Identifier, Box<Expression>)> = Vec::new();
    proof {
        lemma_push_fields(acc@, f);
    }
    acc.push(f);
    read_field_list_rest(toks, p, acc)
}

/// Reads the rest of a list of fields, after those in `acc`.
fn read_field_list_rest(
    toks: &Vec<Token>,
    pos: usize,
    acc: Vec<(Identifier, Box<Expression>)>,
) -> (r: Result<(Vec<(Identifier, Box<Expression>)>, usize), ParseFailure>)
    requires
        countable(toks@),
        pos <= toks@.len(),
    ensures
        reads_rest(
            r,
            field_list_rest(tokens_view(toks@), pos as int, field_expressions_view(acc@)),
            field_list_view(),
            pos as int,
            toks@.len() as int,
        ),
    decreases toks@.len() - pos, 35nat,
{
    if pos >= toks.len() {
        return failure(pos, kinds2(TokenKind::Comma, TokenKind::RightBrace));
    }
    let k = kind_of(toks, pos);
    if k == TokenKind::RightBrace {
        return Ok((acc, pos + 1));
    }
    if k != TokenKind::Comma {
        return failure(pos, kinds2(TokenKind::Comma, TokenKind::RightBrace));
    }
    if kind_of(toks, pos + 1) == TokenKind::RightBrace {
        return Ok((acc, pos + 2));
    }
    let (f, p) = match read_field(toks, pos + 1) {
        Ok(x) => x,
        Err(x) => return Err(x),
    };
    let mut acc = acc;
    proof {
        lemma_push_fields(acc@, f);
    }
    acc.push(f);
    read_field_list_rest(toks, p, acc)
}

/// Reads the token that must stand at `pos`.
fn read_expected(toks: &Vec<Token>, pos: usize, k: TokenKind) -> (r: Result<((), usize), ParseFailure>)
    requires
        pos <= toks@.len() + 4,
        countable(toks@),
    ensures
        reads(r, expect(tokens_view(toks@), pos as int, k), |u: ()| u, pos as int, toks@.len() as int + 5),
{
    if kind_of(toks, pos) == k {
        Ok(((), pos + 1))
    } else {
        failure(pos, kinds1(k))
    }
}

/// The model of a boxed statement.
pub open spec fn boxed_statement_view() -> spec_fn(Box<Statement>) -> StatementV {
    |x: Box<Statement>| statement_view(*x)
}

/// Reads a statement.
fn read_statement(toks: &Vec<Token>, pos: usize) -> (r: Result<(Box<Statement>, usize), ParseFailure>)
    requires
        countable(toks@),
    ensures
        reads(r, parse_statement(tokens_view(toks@), pos as int), boxed_statement_view(), pos as int, toks@.len() as int),
    decreases toks@.len() - pos, 50nat,
{
    if pos >= toks.len() {
        return failure(pos, kinds0());
    }
    let k = kind_of(toks, pos);
    if k == TokenKind::Extern {
        read_extern(toks, pos)
    } else if k == TokenKind::Fn {
        read_function(toks, pos)
    } else if k == TokenKind::Struct {
        read_struct(toks, pos)
    } else if k == TokenKind::If {
        read_if(toks, pos)
    } else if k == TokenKind::Return {
        if kind_of(toks, pos + 1) == TokenKind::Semicolon {
            return Ok((Box::new(Statement::Return(None)), pos + 2));
        }
        let (e, p) = match read_expr(toks, pos + 1) {
            Ok(x) => x,
            Err(x) => return Err(x),
        };
        let (_, p2) = match read_expected(toks, p, TokenKind::Semicolon) {
            Ok(x) => x,
            Err(x) => return Err(x),
        };
        Ok((Box::new(Statement::Return(Some(e))), p2))
    } else {
        let (e, p) = match read_expr(toks, pos) {
            Ok(x) => x,
            Err(x) => return Err(x),
        };
        let (_, p2) = match read_expected(toks, p, TokenKind::Semicolon) {
            Ok(x) => x,
            Err(x) => return Err(x),
        };
        Ok((Box::new(Statement::Expression(e)), p2))
    }
}

/// Reads the declaration of a function defined elsewhere.
fn read_extern(toks: &Vec<Token>, pos: usize) -> (r: Result<(Box<Statement>, usize), ParseFailure>)
    requires
        countable(toks@),
        pos < toks@.len(),
    ensures
        reads(r, parse_extern(tokens_view(toks@), pos as int), boxed_statement_view(), pos as int, toks@.len() as int),
    decreases toks@.len() - pos, 45nat,
{
    if kind_of(toks, pos + 1) != TokenKind::Fn {
        return failure(pos + 1, kinds1(TokenKind::Fn));
    }
    if kind_of(toks, pos + 2) != TokenKind::Identifier {
        return failure(pos + 2, kinds1(TokenKind::Identifier));
    }
    if kind_of(toks, pos + 3) != TokenKind::LeftParen {
        return failure(pos + 3, kinds1(TokenKind::LeftParen));
    }
    let (params, p) = match read_type_list(toks, pos + 4, TokenKind::RightParen) {
        Ok(x) => x,
        Err(x) => return Err(x),
    };
    let (ret, p2) = match read_return_type(toks, p) {
        Ok(x) => x,
        Err(x) => return Err(x),
    };
    let (_, p3) = match read_expected(toks, p2, TokenKind::Semicolon) {
        Ok(x) => x,
        Err(x) => return Err(x),
    };
    Ok((Box::new(Statement::ExternFunctionDeclaration(toks[pos + 2].text.clone(), params, ret)), p3))
}

/// Reads the declaration of a function with its body.
fn read_function(toks: &Vec<Token>, pos: usize) -> (r: Result<(Box<Statement>, usize), ParseFailure>)
    requires
        countable(toks@),
        pos < toks@.len(),
    ensures
        reads(r, parse_function(tokens_view(toks@), pos as int), boxed_statement_view(), pos as int, toks@.len() as int),
    decreases toks@.len() - pos, 46nat,
{
    if kind_of(toks, pos + 1) != TokenKind::Identifier {
        return failure(pos + 1, kinds1(TokenKind::Identifier));
    }
    let (formals, p) = match read_formals(toks, pos + 2) {
        Ok(x) => x,
        Err(x) => return Err(x),
    };
    let (_, p1) = match read_expected(toks, p, TokenKind::LeftParen) {
        Ok(x) => x,
        Err(x) => return Err(x),
    };
    let (params, p2) = match read_param_list(toks, p1, TokenKind::RightParen) {
        Ok(x) => x,
        Err(x) => return Err(x),
    };
    let (ret, p3) = match read_return_type(toks, p2) {
        Ok(x) => x,
        Err(x) => return Err(x),
    };
    let (_, p4) = match read_expected(toks, p3, TokenKind::Do) {
        Ok(x) => x,
        Err(x) => return Err(x),
    };
    if p4 > toks.len() {
        return failure(p4, kinds0());
    }
    let (body, p5) = match read_block(toks, p4) {
        Ok(x) => x,
        Err(x) => return Err(x),
    };
    let (_, p6) = match read_expected(toks, p5, TokenKind::End) {
        Ok(x) => x,
        Err(x) => return Err(x),
    };
    Ok((Box::new(Statement::FunctionDeclaration(toks[pos + 1].text.clone(), formals, params, ret, body)), p6))
}

/// Reads the declaration of a structure.
fn read_struct(toks: &Vec<Token>, pos: usize) -> (r: Result<(Box<Statement>, usize), ParseFailure>)
    requires
        countable(toks@),
        pos < toks@.len(),
    ensures
        reads(r, parse_struct(tokens_view(toks@), pos as int), boxed_statement_view(), pos as int, toks@.len() as int),
    decreases toks@.len() - pos, 47nat,
{
    if kind_of(toks, pos + 1) != TokenKind::Identifier {
        return failure(pos + 1, kinds1(TokenKind::Identifier));
    }
    let (formals, p) = match read_formals(toks, pos + 2) {
        Ok(x) => x,
        Err(x) => return Err(x),
    };
    let (_, p1) = match read_expected(toks, p, TokenKind::LeftBrace) {
        Ok(x) => x,
        Err(x) => return Err(x),
    };
    let (fields, p2) = match read_param_list(toks, p1, TokenKind::RightBrace) {
        Ok(x) => x,
        Err(x) => return Err(x),
    };
    Ok((Box::new(Statement::StructDeclaration(toks[pos + 1].text.clone(), formals, fields)), p2))
}

/// Reads a conditional, with an optional `else` block.
fn read_if(toks: &Vec<Token>, pos: usize) -> (r: Result<(Box<Statement>, usize), ParseFailure>)
    requires
        countable(toks@),
        pos < toks@.len(),
    ensures
        reads(r, parse_if(tokens_view(toks@), pos as int), boxed_statement_view(), pos as int, toks@.len() as int),
    decreases toks@.len() - pos, 48nat,
{
    let (c, p) = match read_expr(toks, pos + 1) {
        Ok(x) => x,
        Err(x) => return Err(x),
    };
    let (_, p1) = match read_expected(toks, p, TokenKind::Do) {
        Ok(x) => x,
        Err(x) => return Err(x),
    };
    if p1 > toks.len() {
        return failure(p1, kinds0());
    }
    let (body, p2) = match read_block(toks, p1) {
        Ok(x) => x,
        Err(x) => return Err(x),
    };
    if p2 >= toks.len() {
        return failure(p2, kinds0());
    }
    if kind_of(toks, p2) == TokenKind::Else {
        let (else_block, p3) = match read_block(toks, p2 + 1) {
            Ok(x) => x,
            Err(x) => return Err(x),
        };
        let (_, p4) = match read_expected(toks, p3, TokenKind::End) {
            Ok(x) => x,
            Err(x) => return Err(x),
        };
        Ok((Box::new(Statement::IfElse(c, body, Some(else_block))), p4))
    } else {
        let (_, p3) = match read_expected(toks, p2, TokenKind::End) {
            Ok(x) => x,
            Err(x) => return Err(x),
        };
        Ok((Box::new(Statement::IfElse(c, body, None)), p3))
    }
}

/// Reads statements, after those in `acc`, up to a token that ends a
/// block.
fn read_block_from(toks: &Vec<Token>, pos: usize, acc: Vec<Box<Statement>>) -> (r: Result<(Vec<Box<Statement>>, usize), ParseFailure>)
    requires
        countable(toks@),
        pos <= toks@.len(),
    ensures
        reads_rest(
            r,
            block_from(tokens_view(toks@), pos as int, statements_view(acc@)),
            statement_list_view(),
            pos as int,
            toks@.len() as int,
        ),
    decreases toks@.len() - pos, 52nat,
{
    if pos >= toks.len() {
        return Ok((acc, pos));
    }
    let k = kind_of(toks, pos);
    if k == TokenKind::End || k == TokenKind::Else || k == TokenKind::Eof {
        return Ok((acc, pos));
    }
    let (st, p) = match read_statement(toks, pos) {
        Ok(x) => x,
        Err(x) => return Err(x),
    };
    let mut acc = acc;
    proof {
        lemma_push_statements(acc@, st);
    }
    acc.push(st);
    read_block_from(toks, p, acc)
}

/// Reads the statements of a block.
fn read_block(toks: &Vec<Token>, pos: usize) -> (r: Result<(Vec<Box<Statement>>, usize), ParseFailure>)
    requires
        countable(toks@),
        pos <= toks@.len(),
    ensures
        reads_rest(
            r,
            parse_block(tokens_view(toks@), pos as int),
            statement_list_view(),
            pos as int,
            toks@.len() as int,
        ),
    decreases toks@.len() - pos, 53nat,
{
    let v: Vec<Box<Statement>> = Vec::new();
    proof {
        lemma_push_statements(v@, arbitrary());
    }
    read_block_from(toks, pos, v)
}

/// Reads a whole program: statements up to the end of the file.
pub fn read_program(toks: &Vec<Token>) -> (r: Result<Vec<Box<Statement>>, ParseFailure>)
    requires
        countable(toks@),
    ensures
        match parse_program(tokens_view(toks@)) {
            Ok(s) => r matches Ok(x) && statements_view(x@) == s,
            Err(e) => r matches Err(x) && x@ == e,
        },
{
    let (stmts, p) = match read_block(toks, 0) {
        Ok(x) => x,
        Err(x) => return Err(x),
    };
    if kind_of(toks, p) == TokenKind::Eof {
        Ok(stmts)
    } else {
        failure(p, kinds1(TokenKind::Eof))
    }
}

} // verus!
