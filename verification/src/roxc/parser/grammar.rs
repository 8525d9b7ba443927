//! The grammar of the Rox language, as functions from a position in the
//! token sequence to what is read there and the position after it, or the
//! position where reading failed and the tokens that could have stood
//! there.
//!
//! ```text
//! program    := statement* EOF
//! statement  := "extern" "fn" NAME "(" types ")" ["->" type] ";"
//!             | "fn" NAME ["<" names ">"] "(" params ")" ["->" type] "do" statement* "end"
//!             | "struct" NAME ["<" names ">"] "{" params "}"
//!             | "if" expr "do" statement* ["else" statement*] "end"
//!             | "return" [expr] ";"
//!             | expr ";"
//! type       := NAME ["<" types ">"] | "fn" "(" types ")" "->" type
//! expr       := "let" NAME "=" expr | binary ["=" expr]
//! binary     := the operators `||`, `&&`, `== !=`, `< >`, `+ -`, `* /`,
//!               from the loosest to the tightest, each left-associative
//! unary      := ("!" | "-") unary | primary ("[" expr "]" | "." NAME)*
//! primary    := NUMBER | STRING | "true" | "false" | "(" expr ")" | "[" exprs "]"
//!             | NAME ["::" "<" types ">"] ["(" exprs ")" | "{" fields "}"]
//! ```
//!
//! Lists are separated by commas and may end with one.  `Array<T>` is the
//! type of arrays of `T`.
use vstd::prelude::*;
use crate::roxc::parser::lexer::{TokenKind, TokenV};
use crate::roxc::parser::syntax::{ExpressionV, Operation, Span, StatementV, TypeNameV, Unary};

verus! {

broadcast use vstd::seq::group_seq_axioms;

/// Where reading failed: the token position, and the kinds of tokens that
/// could have stood there.
pub struct ParseFailureV {
    pub at: int,
    pub expected: Seq<TokenKind>,
}

/// What is read at a position and the position after it, or why reading
/// failed.
pub type Read<T> = Result<(T, int), ParseFailureV>;

/// A failure at `pos`.
pub open spec fn fail<T>(pos: int, expected: Seq<TokenKind>) -> Read<T> {
    Err(ParseFailureV { at: pos, expected })
}

/// The kind of the token at `pos`; past the end, the end of the file.
pub open spec fn kind_at(ts: Seq<TokenV>, pos: int) -> TokenKind {
    if 0 <= pos < ts.len() {
        ts[pos].kind
    } else {
        TokenKind::Eof
    }
}

/// The text of the token at `pos`.
pub open spec fn text_at(ts: Seq<TokenV>, pos: int) -> Seq<char> {
    if 0 <= pos < ts.len() {
        ts[pos].text
    } else {
        Seq::empty()
    }
}

/// The span of the token at `pos`.
pub open spec fn span_at(ts: Seq<TokenV>, pos: int) -> Span {
    if 0 <= pos < ts.len() {
        Span(ts[pos].start as usize, ts[pos].end as usize)
    } else {
        Span(0, 0)
    }
}

/// The name of the array type.
pub open spec fn array_name() -> Seq<char> {
    seq!['A', 'r', 'r', 'a', 'y']
}

/// A type name.
pub open spec fn parse_type(ts: Seq<TokenV>, pos: int) -> Read<TypeNameV>
    decreases ts.len() - pos, 3nat,
{
    if pos < 0 || pos >= ts.len() {
        fail(pos, seq![TokenKind::Identifier, TokenKind::Fn])
    } else if kind_at(ts, pos) == TokenKind::Identifier {
        let name = text_at(ts, pos);
        let span = span_at(ts, pos);
        if kind_at(ts, pos + 1) == TokenKind::Less {
            match parse_type_list(ts, pos + 2, TokenKind::Greater) {
                Ok((args, p)) => if name == array_name() && args.len() == 1 {
                    Ok((TypeNameV::ArrayType(Box::new(args[0])), p))
                } else {
                    Ok((TypeNameV::GenericType(name, span, args), p))
                },
                Err(e) => Err(e),
            }
        } else {
            Ok((TypeNameV::Type(name, span), pos + 1))
        }
    } else if kind_at(ts, pos) == TokenKind::Fn {
        if kind_at(ts, pos + 1) != TokenKind::LeftParen {
            fail(pos + 1, seq![TokenKind::LeftParen])
        } else {
            match parse_type_list(ts, pos + 2, TokenKind::RightParen) {
                Ok((args, p)) => if !(pos < p < ts.len()) {
                    fail(p, Seq::empty())
                } else if kind_at(ts, p) != TokenKind::Arrow {
                    fail(p, seq![TokenKind::Arrow])
                } else {
                    match parse_type(ts, p + 1) {
                        Ok((ret, p2)) => Ok((TypeNameV::Function(args, Box::new(ret)), p2)),
                        Err(e) => Err(e),
                    }
                }
                Err(e) => Err(e),
            }
        }
    } else {
        fail(pos, seq![TokenKind::Identifier, TokenKind::Fn])
    }
}

/// Type names separated by commas, up to the closing token `close`.
pub open spec fn parse_type_list(ts: Seq<TokenV>, pos: int, close: TokenKind) -> Read<Seq<TypeNameV>>
    decreases ts.len() - pos, 5nat,
{
    if pos < 0 || pos >= ts.len() {
        fail(pos, seq![close])
    } else if kind_at(ts, pos) == close {
        Ok((Seq::empty(), pos + 1))
    } else {
        match parse_type(ts, pos) {
            Ok((t, p)) => if pos < p <= ts.len() {
                type_list_rest(ts, p, close, seq![t])
            } else {
                fail(p, Seq::empty())
            },
            Err(e) => Err(e),
        }
    }
}

/// The rest of a list of type names, after those in `acc`.
pub open spec fn type_list_rest(
    ts: Seq<TokenV>,
    pos: int,
    close: TokenKind,
    acc: Seq<TypeNameV>,
) -> Read<Seq<TypeNameV>>
    decreases ts.len() - pos, 4nat,
{
    if pos < 0 || pos >= ts.len() {
        fail(pos, seq![TokenKind::Comma, close])
    } else if kind_at(ts, pos) == close {
        Ok((acc, pos + 1))
    } else if kind_at(ts, pos) != TokenKind::Comma {
        fail(pos, seq![TokenKind::Comma, close])
    } else if kind_at(ts, pos + 1) == close {
        Ok((acc, pos + 2))
    } else {
        match parse_type(ts, pos + 1) {
            Ok((t, p)) => if pos < p <= ts.len() {
                type_list_rest(ts, p, close, acc.push(t))
            } else {
                fail(p, Seq::empty())
            },
            Err(e) => Err(e),
        }
    }
}

/// Names separated by commas, up to a closing `>`.
pub open spec fn parse_name_list(ts: Seq<TokenV>, pos: int, acc: Seq<Seq<char>>) -> Read<Seq<Seq<char>>>
    decreases ts.len() - pos,
{
    if pos < 0 || pos >= ts.len() {
        fail(pos, seq![TokenKind::Identifier, TokenKind::Greater])
    } else if kind_at(ts, pos) == TokenKind::Greater {
        Ok((acc, pos + 1))
    } else if kind_at(ts, pos) != TokenKind::Identifier {
        fail(pos, seq![TokenKind::Identifier, TokenKind::Greater])
    } else if kind_at(ts, pos + 1) == TokenKind::Comma {
        parse_name_list(ts, pos + 2, acc.push(text_at(ts, pos)))
    } else if kind_at(ts, pos + 1) == TokenKind::Greater {
        Ok((acc.push(text_at(ts, pos)), pos + 2))
    } else {
        fail(pos + 1, seq![TokenKind::Comma, TokenKind::Greater])
    }
}

/// Formal type parameters between `<` and `>`, where they are written.
pub open spec fn parse_formals(ts: Seq<TokenV>, pos: int) -> Read<Option<Seq<Seq<char>>>> {
    if kind_at(ts, pos) == TokenKind::Less {
        match parse_name_list(ts, pos + 1, Seq::empty()) {
            Ok((ns, p)) => Ok((Some(ns), p)),
            Err(e) => Err(e),
        }
    } else {
        Ok((None, pos))
    }
}

/// A parameter: a name, a colon and a type name.
pub open spec fn parse_param(ts: Seq<TokenV>, pos: int) -> Read<(Seq<char>, TypeNameV)>
    decreases ts.len() - pos, 6nat,
{
    if pos < 0 || pos >= ts.len() || kind_at(ts, pos) != TokenKind::Identifier {
        fail(pos, seq![TokenKind::Identifier])
    } else if kind_at(ts, pos + 1) != TokenKind::Colon {
        fail(pos + 1, seq![TokenKind::Colon])
    } else {
        match parse_type(ts, pos + 2) {
            Ok((t, p)) => Ok(((text_at(ts, pos), t), p)),
            Err(e) => Err(e),
        }
    }
}

/// Parameters separated by commas, up to the closing token `close`.
pub open spec fn parse_param_list(ts: Seq<TokenV>, pos: int, close: TokenKind) -> Read<
    Seq<(Seq<char>, TypeNameV)>,
>
    decreases ts.len() - pos, 8nat,
{
    if pos < 0 || pos >= ts.len() {
        fail(pos, seq![close])
    } else if kind_at(ts, pos) == close {
        Ok((Seq::empty(), pos + 1))
    } else {
        match parse_param(ts, pos) {
            Ok((x, p)) => if pos < p <= ts.len() {
                param_list_rest(ts, p, close, seq![x])
            } else {
                fail(p, Seq::empty())
            },
            Err(e) => Err(e),
        }
    }
}

/// The rest of a list of parameters, after those in `acc`.
pub open spec fn param_list_rest(
    ts: Seq<TokenV>,
    pos: int,
    close: TokenKind,
    acc: Seq<(Seq<char>, TypeNameV)>,
) -> Read<Seq<(Seq<char>, TypeNameV)>>
    decreases ts.len() - pos, 7nat,
{
    if pos < 0 || pos >= ts.len() {
        fail(pos, seq![TokenKind::Comma, close])
    } else if kind_at(ts, pos) == close {
        Ok((acc, pos + 1))
    } else if kind_at(ts, pos) != TokenKind::Comma {
        fail(pos, seq![TokenKind::Comma, close])
    } else if kind_at(ts, pos + 1) == close {
        Ok((acc, pos + 2))
    } else {
        match parse_param(ts, pos + 1) {
            Ok((x, p)) => if pos < p <= ts.len() {
                param_list_rest(ts, p, close, acc.push(x))
            } else {
                fail(p, Seq::empty())
            },
            Err(e) => Err(e),
        }
    }
}

/// An optional return type: `->` and a type name.
pub open spec fn parse_return_type(ts: Seq<TokenV>, pos: int) -> Read<Option<TypeNameV>> {
    if kind_at(ts, pos) == TokenKind::Arrow {
        match parse_type(ts, pos + 1) {
            Ok((t, p)) => Ok((Some(t), p)),
            Err(e) => Err(e),
        }
    } else {
        Ok((None, pos))
    }
}

/// An expression.
pub open spec fn parse_expr(ts: Seq<TokenV>, pos: int) -> Read<ExpressionV>
    decreases ts.len() - pos, 30nat,
{
    if pos < 0 || pos >= ts.len() {
        fail(pos, Seq::empty())
    } else if kind_at(ts, pos) == TokenKind::Let {
        if kind_at(ts, pos + 1) != TokenKind::Identifier {
            fail(pos + 1, seq![TokenKind::Identifier])
        } else if kind_at(ts, pos + 2) != TokenKind::Equal {
            fail(pos + 2, seq![TokenKind::Equal])
        } else {
            match parse_expr(ts, pos + 3) {
                Ok((e, p)) => Ok((
                    ExpressionV::Variable(text_at(ts, pos + 1), span_at(ts, pos + 1), Box::new(e)),
                    p,
                )),
                Err(e) => Err(e),
            }
        }
    } else {
        match parse_binary(ts, pos, 0) {
            Ok((lhs, p)) => if !(pos < p < ts.len()) {
                fail(p, Seq::empty())
            } else if kind_at(ts, p) == TokenKind::Equal {
                match parse_expr(ts, p + 1) {
                    Ok((rhs, p2)) => Ok((ExpressionV::Assignment(Box::new(lhs), Box::new(rhs)), p2)),
                    Err(e) => Err(e),
                }
            } else {
                Ok((lhs, p))
            },
            Err(e) => Err(e),
        }
    }
}

/// A binary operator, with what it builds.
pub enum BinOp {
    Or,
    And,
    Op(Operation),
}

/// The operator of the given precedence level that a token is, if any;
/// level 0 binds the loosest.
pub open spec fn binop(k: TokenKind, level: nat) -> Option<BinOp> {
    if level == 0 && k == TokenKind::OrOr {
        Some(BinOp::Or)
    } else if level == 1 && k == TokenKind::AndAnd {
        Some(BinOp::And)
    } else if level == 2 && k == TokenKind::EqualEqual {
        Some(BinOp::Op(Operation::Equals))
    } else if level == 2 && k == TokenKind::BangEqual {
        Some(BinOp::Op(Operation::NotEquals))
    } else if level == 3 && k == TokenKind::Less {
        Some(BinOp::Op(Operation::LessThan))
    } else if level == 3 && k == TokenKind::Greater {
        Some(BinOp::Op(Operation::GreaterThan))
    } else if level == 4 && k == TokenKind::Plus {
        Some(BinOp::Op(Operation::Add))
    } else if level == 4 && k == TokenKind::Minus {
        Some(BinOp::Op(Operation::Subtract))
    } else if level == 5 && k == TokenKind::Star {
        Some(BinOp::Op(Operation::Multiply))
    } else if level == 5 && k == TokenKind::Slash {
        Some(BinOp::Op(Operation::Divide))
    } else {
        None
    }
}

/// The expression an operator builds from its operands.
pub open spec fn combine(op: BinOp, l: ExpressionV, r: ExpressionV, span: Span) -> ExpressionV {
    match op {
        BinOp::Or => ExpressionV::Or(Box::new(l), Box::new(r)),
        BinOp::And => ExpressionV::And(Box::new(l), Box::new(r)),
        BinOp::Op(o) => ExpressionV::Operation(Box::new(l), o, span, Box::new(r)),
    }
}

/// The number of precedence levels of binary operators.
pub open spec fn levels() -> nat {
    6
}

/// An expression whose binary operators bind at least as tightly as
/// `level`.
pub open spec fn parse_binary(ts: Seq<TokenV>, pos: int, level: nat) -> Read<ExpressionV>
    decreases ts.len() - pos, if level >= levels() { 11 } else { 20 - level },
{
    if pos < 0 || pos >= ts.len() {
        fail(pos, Seq::empty())
    } else if level >= levels() {
        parse_unary(ts, pos)
    } else {
        match parse_binary(ts, pos, level + 1) {
            Ok((lhs, p)) => if pos < p <= ts.len() {
                binary_rest(ts, p, level, lhs)
            } else {
                fail(p, Seq::empty())
            },
            Err(e) => Err(e),
        }
    }
}

/// The operators of `level` and their right operands after `lhs`.
pub open spec fn binary_rest(ts: Seq<TokenV>, pos: int, level: nat, lhs: ExpressionV) -> Read<ExpressionV>
    decreases ts.len() - pos, 0nat,
{
    if pos < 0 || pos >= ts.len() || level >= levels() {
        Ok((lhs, pos))
    } else {
        match binop(kind_at(ts, pos), level) {
            None => Ok((lhs, pos)),
            Some(op) => match parse_binary(ts, pos + 1, level + 1) {
                Ok((rhs, p)) => if pos < p <= ts.len() {
                    binary_rest(ts, p, level, combine(op, lhs, rhs, span_at(ts, pos)))
                } else {
                    fail(p, Seq::empty())
                },
                Err(e) => Err(e),
            },
        }
    }
}

/// An expression with prefix operators.
pub open spec fn parse_unary(ts: Seq<TokenV>, pos: int) -> Read<ExpressionV>
    decreases ts.len() - pos, 10nat,
{
    if pos < 0 || pos >= ts.len() {
        fail(pos, Seq::empty())
    } else if kind_at(ts, pos) == TokenKind::Bang || kind_at(ts, pos) == TokenKind::Minus {
        let u = if kind_at(ts, pos) == TokenKind::Bang {
            Unary::Not
        } else {
            Unary::Negate
        };
        match parse_unary(ts, pos + 1) {
            Ok((e, p)) => Ok((ExpressionV::Unary(u, Box::new(e)), p)),
            Err(e) => Err(e),
        }
    } else {
        match parse_primary(ts, pos) {
            Ok((e, p)) => if pos < p <= ts.len() {
                postfix_rest(ts, p, e)
            } else {
                fail(p, Seq::empty())
            },
            Err(e) => Err(e),
        }
    }
}

/// Indexing and field access after `e`.
pub open spec fn postfix_rest(ts: Seq<TokenV>, pos: int, e: ExpressionV) -> Read<ExpressionV>
    decreases ts.len() - pos, 0nat,
{
    if pos < 0 || pos >= ts.len() {
        Ok((e, pos))
    } else if kind_at(ts, pos) == TokenKind::LeftBracket {
        match parse_expr(ts, pos + 1) {
            Ok((i, p)) => if !(pos < p < ts.len()) {
                fail(p, Seq::empty())
            } else if kind_at(ts, p) != TokenKind::RightBracket {
                fail(p, seq![TokenKind::RightBracket])
            } else {
                postfix_rest(ts, p + 1, ExpressionV::BracketAccess(Box::new(e), Box::new(i)))
            },
            Err(x) => Err(x),
        }
    } else if kind_at(ts, pos) == TokenKind::Dot {
        if kind_at(ts, pos + 1) != TokenKind::Identifier {
            fail(pos + 1, seq![TokenKind::Identifier])
        } else {
            postfix_rest(
                ts,
                pos + 2,
                ExpressionV::DotAccess(Box::new(e), text_at(ts, pos + 1), span_at(ts, pos + 1)),
            )
        }
    } else {
        Ok((e, pos))
    }
}

/// The tokens that can start an expression.
pub open spec fn expression_starts() -> Seq<TokenKind> {
    seq![
        TokenKind::Number,
        TokenKind::Str,
        TokenKind::True,
        TokenKind::False,
        TokenKind::Identifier,
        TokenKind::LeftParen,
        TokenKind::LeftBracket,
        TokenKind::Bang,
        TokenKind::Minus,
        TokenKind::Let,
    ]
}

/// A literal, a parenthesized expression, an array, or an expression
/// that starts with a name.
pub open spec fn parse_primary(ts: Seq<TokenV>, pos: int) -> Read<ExpressionV>
    decreases ts.len() - pos, 8nat,
{
    if pos < 0 || pos >= ts.len() {
        fail(pos, expression_starts())
    } else {
        let k = kind_at(ts, pos);
        if k == TokenKind::Number {
            Ok((ExpressionV::Float(text_at(ts, pos), span_at(ts, pos)), pos + 1))
        } else if k == TokenKind::Str {
            Ok((ExpressionV::Str(text_at(ts, pos), span_at(ts, pos)), pos + 1))
        } else if k == TokenKind::True {
            Ok((ExpressionV::Boolean(true), pos + 1))
        } else if k == TokenKind::False {
            Ok((ExpressionV::Boolean(false), pos + 1))
        } else if k == TokenKind::LeftParen {
            match parse_expr(ts, pos + 1) {
                Ok((e, p)) => if !(pos < p < ts.len()) {
                    fail(p, Seq::empty())
                } else if kind_at(ts, p) != TokenKind::RightParen {
                    fail(p, seq![TokenKind::RightParen])
                } else {
                    Ok((e, p + 1))
                },
                Err(x) => Err(x),
            }
        } else if k == TokenKind::LeftBracket {
            match parse_expr_list(ts, pos + 1, TokenKind::RightBracket) {
                Ok((es, p)) => Ok((ExpressionV::Array(es), p)),
                Err(x) => Err(x),
            }
        } else if k == TokenKind::Identifier {
            parse_name_expr(ts, pos)
        } else {
            fail(pos, expression_starts())
        }
    }
}

/// The type arguments of a call or instantiation, `::<...>`, where they
/// are written.
pub open spec fn parse_turbofish(ts: Seq<TokenV>, pos: int) -> Read<Option<Seq<TypeNameV>>> {
    if kind_at(ts, pos) == TokenKind::ColonColon {
        if kind_at(ts, pos + 1) != TokenKind::Less {
            fail(pos + 1, seq![TokenKind::Less])
        } else {
            match parse_type_list(ts, pos + 2, TokenKind::Greater) {
                Ok((gs, p)) => Ok((Some(gs), p)),
                Err(e) => Err(e),
            }
        }
    } else {
        Ok((None, pos))
    }
}

/// The type arguments given, or none.
pub open spec fn or_none(g: Option<Seq<TypeNameV>>) -> Seq<TypeNameV> {
    match g {
        Some(s) => s,
        None => Seq::empty(),
    }
}

/// A name, possibly with type arguments, used as a variable, called, or
/// instantiated as a structure.
pub open spec fn parse_name_expr(ts: Seq<TokenV>, pos: int) -> Read<ExpressionV>
    decreases ts.len() - pos, 7nat,
{
    if pos < 0 || pos >= ts.len() {
        fail(pos, seq![TokenKind::Identifier])
    } else {
        let name = text_at(ts, pos);
        let span = span_at(ts, pos);
        match parse_turbofish(ts, pos + 1) {
            Ok((generics, p0)) => if !(pos < p0 <= ts.len()) {
                fail(p0, Seq::empty())
            } else if kind_at(ts, p0) == TokenKind::LeftParen {
                match parse_expr_list(ts, p0 + 1, TokenKind::RightParen) {
                    Ok((args, p)) => Ok((ExpressionV::FunctionCall(name, span, or_none(generics), args), p)),
                    Err(e) => Err(e),
                }
            } else if kind_at(ts, p0) == TokenKind::LeftBrace {
                match parse_field_list(ts, p0 + 1) {
                    Ok((fields, p)) => Ok((ExpressionV::StructInstantiation(name, span, generics, fields), p)),
                    Err(e) => Err(e),
                }
            } else if generics is Some {
                fail(p0, seq![TokenKind::LeftParen, TokenKind::LeftBrace])
            } else {
                Ok((ExpressionV::Identifier(name, span), p0))
            },
            Err(e) => Err(e),
        }
    }
}

/// Expressions separated by commas, up to the closing token `close`.
pub open spec fn parse_expr_list(ts: Seq<TokenV>, pos: int, close: TokenKind) -> Read<Seq<ExpressionV>>
    decreases ts.len() - pos, 33nat,
{
    if pos < 0 || pos >= ts.len() {
        fail(pos, seq![close])
    } else if kind_at(ts, pos) == close {
        Ok((Seq::empty(), pos + 1))
    } else {
        match parse_expr(ts, pos) {
            Ok((e, p)) => if pos < p <= ts.len() {
                expr_list_rest(ts, p, close, seq![e])
            } else {
                fail(p, Seq::empty())
            },
            Err(x) => Err(x),
        }
    }
}

/// The rest of a list of expressions, after those in `acc`.
pub open spec fn expr_list_rest(
    ts: Seq<TokenV>,
    pos: int,
    close: TokenKind,
    acc: Seq<ExpressionV>,
) -> Read<Seq<ExpressionV>>
    decreases ts.len() - pos, 32nat,
{
    if pos < 0 || pos >= ts.len() {
        fail(pos, seq![TokenKind::Comma, close])
    } else if kind_at(ts, pos) == close {
        Ok((acc, pos + 1))
    } else if kind_at(ts, pos) != TokenKind::Comma {
        fail(pos, seq![TokenKind::Comma, close])
    } else if kind_at(ts, pos + 1) == close {
        Ok((acc, pos + 2))
    } else {
        match parse_expr(ts, pos + 1) {
            Ok((e, p)) => if pos < p <= ts.len() {
                expr_list_rest(ts, p, close, acc.push(e))
            } else {
                fail(p, Seq::empty())
            },
            Err(x) => Err(x),
        }
    }
}

/// A field of a structure instantiation: a name, a colon and an
/// expression.
pub open spec fn parse_field(ts: Seq<TokenV>, pos: int) -> Read<(Seq<char>, ExpressionV)>
    decreases ts.len() - pos, 34nat,
{
    if pos < 0 || pos >= ts.len() || kind_at(ts, pos) != TokenKind::Identifier {
        fail(pos, seq![TokenKind::Identifier])
    } else if kind_at(ts, pos + 1) != TokenKind::Colon {
        fail(pos + 1, seq![TokenKind::Colon])
    } else {
        match parse_expr(ts, pos + 2) {
            Ok((e, p)) => Ok(((text_at(ts, pos), e), p)),
            Err(x) => Err(x),
        }
    }
}

/// Fields separated by commas, up to a closing `}`.
pub open spec fn parse_field_list(ts: Seq<TokenV>, pos: int) -> Read<Seq<(Seq<char>, ExpressionV)>>
    decreases ts.len() - pos, 36nat,
{
    if pos < 0 || pos >= ts.len() {
        fail(pos, seq![TokenKind::RightBrace])
    } else if kind_at(ts, pos) == TokenKind::RightBrace {
        Ok((Seq::empty(), pos + 1))
    } else {
        match parse_field(ts, pos) {
            Ok((f, p)) => if pos < p <= ts.len() {
                field_list_rest(ts, p, seq![f])
            } else {
                fail(p, Seq::empty())
            },
            Err(x) => Err(x),
        }
    }
}

/// The rest of a list of fields, after those in `acc`.
pub open spec fn field_list_rest(
    ts: Seq<TokenV>,
    pos: int,
    acc: Seq<(Seq<char>, ExpressionV)>,
) -> Read<Seq<(Seq<char>, ExpressionV)>>
    decreases ts.len() - pos, 35nat,
{
    if pos < 0 || pos >= ts.len() {
        fail(pos, seq![TokenKind::Comma, TokenKind::RightBrace])
    } else if kind_at(ts, pos) == TokenKind::RightBrace {
        Ok((acc, pos + 1))
    } else if kind_at(ts, pos) != TokenKind::Comma {
        fail(pos, seq![TokenKind::Comma, TokenKind::RightBrace])
    } else if kind_at(ts, pos + 1) == TokenKind::RightBrace {
        Ok((acc, pos + 2))
    } else {
        match parse_field(ts, pos + 1) {
            Ok((f, p)) => if pos < p <= ts.len() {
                field_list_rest(ts, p, acc.push(f))
            } else {
                fail(p, Seq::empty())
            },
            Err(x) => Err(x),
        }
    }
}

/// The token that must stand at `pos`, and the position after it.
pub open spec fn expect(ts: Seq<TokenV>, pos: int, k: TokenKind) -> Read<()> {
    if kind_at(ts, pos) == k {
        Ok(((), pos + 1))
    } else {
        fail(pos, seq![k])
    }
}

/// A statement.
pub open spec fn parse_statement(ts: Seq<TokenV>, pos: int) -> Read<StatementV>
    decreases ts.len() - pos, 50nat,
{
    if pos < 0 || pos >= ts.len() {
        fail(pos, Seq::empty())
    } else {
        let k = kind_at(ts, pos);
        if k == TokenKind::Extern {
            parse_extern(ts, pos)
        } else if k == TokenKind::Fn {
            parse_function(ts, pos)
        } else if k == TokenKind::Struct {
            parse_struct(ts, pos)
        } else if k == TokenKind::If {
            parse_if(ts, pos)
        } else if k == TokenKind::Return {
            if kind_at(ts, pos + 1) == TokenKind::Semicolon {
                Ok((StatementV::Return(None), pos + 2))
            } else {
                match parse_expr(ts, pos + 1) {
                    Ok((e, p)) => match expect(ts, p, TokenKind::Semicolon) {
                        Ok((_, p2)) => Ok((StatementV::Return(Some(e)), p2)),
                        Err(x) => Err(x),
                    },
                    Err(x) => Err(x),
                }
            }
        } else {
            match parse_expr(ts, pos) {
                Ok((e, p)) => match expect(ts, p, TokenKind::Semicolon) {
                    Ok((_, p2)) => Ok((StatementV::Expression(e), p2)),
                    Err(x) => Err(x),
                },
                Err(x) => Err(x),
            }
        }
    }
}

/// The declaration of a function defined elsewhere.
pub open spec fn parse_extern(ts: Seq<TokenV>, pos: int) -> Read<StatementV>
    decreases ts.len() - pos, 45nat,
{
    if kind_at(ts, pos + 1) != TokenKind::Fn {
        fail(pos + 1, seq![TokenKind::Fn])
    } else if kind_at(ts, pos + 2) != TokenKind::Identifier {
        fail(pos + 2, seq![TokenKind::Identifier])
    } else if kind_at(ts, pos + 3) != TokenKind::LeftParen {
        fail(pos + 3, seq![TokenKind::LeftParen])
    } else {
        match parse_type_list(ts, pos + 4, TokenKind::RightParen) {
            Ok((params, p)) => match parse_return_type(ts, p) {
                Ok((ret, p2)) => match expect(ts, p2, TokenKind::Semicolon) {
                    Ok((_, p3)) => Ok((
                        StatementV::ExternFunctionDeclaration(text_at(ts, pos + 2), params, ret),
                        p3,
                    )),
                    Err(x) => Err(x),
                },
                Err(x) => Err(x),
            },
            Err(x) => Err(x),
        }
    }
}

/// The declaration of a function with its body.
pub open spec fn parse_function(ts: Seq<TokenV>, pos: int) -> Read<StatementV>
    decreases ts.len() - pos, 46nat,
{
    if kind_at(ts, pos + 1) != TokenKind::Identifier {
        fail(pos + 1, seq![TokenKind::Identifier])
    } else {
        match parse_formals(ts, pos + 2) {
            Ok((formals, p)) => match expect(ts, p, TokenKind::LeftParen) {
                Ok((_, p1)) => match parse_param_list(ts, p1, TokenKind::RightParen) {
                    Ok((params, p2)) => match parse_return_type(ts, p2) {
                        Ok((ret, p3)) => match expect(ts, p3, TokenKind::Do) {
                            Ok((_, p4)) => if !(pos < p4 <= ts.len()) {
                                fail(p4, Seq::empty())
                            } else {
                                match parse_block(ts, p4) {
                                    Ok((body, p5)) => match expect(ts, p5, TokenKind::End) {
                                        Ok((_, p6)) => Ok((
                                            StatementV::FunctionDeclaration(
                                                text_at(ts, pos + 1),
                                                formals,
                                                params,
                                                ret,
                                                body,
                                            ),
                                            p6,
                                        )),
                                        Err(x) => Err(x),
                                    },
                                    Err(x) => Err(x),
                                }
                            },
                            Err(x) => Err(x),
                        },
                        Err(x) => Err(x),
                    },
                    Err(x) => Err(x),
                },
                Err(x) => Err(x),
            },
            Err(x) => Err(x),
        }
    }
}

/// The declaration of a structure.
pub open spec fn parse_struct(ts: Seq<TokenV>, pos: int) -> Read<StatementV>
    decreases ts.len() - pos, 47nat,
{
    if kind_at(ts, pos + 1) != TokenKind::Identifier {
        fail(pos + 1, seq![TokenKind::Identifier])
    } else {
        match parse_formals(ts, pos + 2) {
            Ok((formals, p)) => match expect(ts, p, TokenKind::LeftBrace) {
                Ok((_, p1)) => match parse_param_list(ts, p1, TokenKind::RightBrace) {
                    Ok((fields, p2)) => Ok((StatementV::StructDeclaration(text_at(ts, pos + 1), formals, fields), p2)),
                    Err(x) => Err(x),
                },
                Err(x) => Err(x),
            },
            Err(x) => Err(x),
        }
    }
}

/// A conditional, with an optional `else` block.
pub open spec fn parse_if(ts: Seq<TokenV>, pos: int) -> Read<StatementV>
    decreases ts.len() - pos, 48nat,
{
    match parse_expr(ts, pos + 1) {
        Ok((c, p)) => match expect(ts, p, TokenKind::Do) {
            Ok((_, p1)) => if !(pos < p1 <= ts.len()) {
                fail(p1, Seq::empty())
            } else {
                match parse_block(ts, p1) {
                    Ok((body, p2)) => if !(pos < p2 < ts.len()) {
                        fail(p2, Seq::empty())
                    } else if kind_at(ts, p2) == TokenKind::Else {
                        match parse_block(ts, p2 + 1) {
                            Ok((else_block, p3)) => match expect(ts, p3, TokenKind::End) {
                                Ok((_, p4)) => Ok((StatementV::IfElse(c, body, Some(else_block)), p4)),
                                Err(x) => Err(x),
                            },
                            Err(x) => Err(x),
                        }
                    } else {
                        match expect(ts, p2, TokenKind::End) {
                            Ok((_, p3)) => Ok((StatementV::IfElse(c, body, None), p3)),
                            Err(x) => Err(x),
                        }
                    },
                    Err(x) => Err(x),
                }
            },
            Err(x) => Err(x),
        },
        Err(x) => Err(x),
    }
}

/// Whether a token ends a block.
pub open spec fn ends_block(k: TokenKind) -> bool {
    k == TokenKind::End || k == TokenKind::Else || k == TokenKind::Eof
}

/// Statements, after those in `acc`, up to a token that ends a block.
pub open spec fn block_from(ts: Seq<TokenV>, pos: int, acc: Seq<StatementV>) -> Read<Seq<StatementV>>
    decreases ts.len() - pos, 52nat,
{
    if pos < 0 || pos >= ts.len() || ends_block(kind_at(ts, pos)) {
        Ok((acc, pos))
    } else {
        match parse_statement(ts, pos) {
            Ok((s, p)) => if pos < p <= ts.len() {
                block_from(ts, p, acc.push(s))
            } else {
                fail(p, Seq::empty())
            },
            Err(x) => Err(x),
        }
    }
}

/// The statements of a block.
pub open spec fn parse_block(ts: Seq<TokenV>, pos: int) -> Read<Seq<StatementV>>
    decreases ts.len() - pos, 53nat,
{
    block_from(ts, pos, Seq::empty())
}

/// A whole program: statements up to the end of the file.
pub open spec fn parse_program(ts: Seq<TokenV>) -> Result<Seq<StatementV>, ParseFailureV> {
    match parse_block(ts, 0) {
        Ok((stmts, p)) => if kind_at(ts, p) == TokenKind::Eof {
            Ok(stmts)
        } else {
            Err(ParseFailureV { at: p, expected: seq![TokenKind::Eof] })
        },
        Err(x) => Err(x),
    }
}

} // verus!
