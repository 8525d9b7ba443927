//! What the type checker computes, stated over the models of types and of
//! tagged syntax.
use vstd::prelude::*;
use crate::roxc::parser::syntax::{
    Expression, FunctionDeclarationV, Operation, Span, Statement, TypeName, Unary,
};
use crate::roxc::semant::env::zip_map;
use crate::roxc::semant::substitution::subst;
use crate::roxc::semant::tagged_syntax::{simple, tagged_type, TaggedStatementV, TaggedV};
use crate::roxc::semant::types::{names_view, ConstructorV, Identifier, TypeV};
use crate::roxc::semant::unification::{expansion, mismatch_text, unify_outcome};

verus! {

broadcast use vstd::seq::group_seq_axioms, vstd::std_specs::vec::group_vec_axioms;

/// A map from names to types.
pub type TypeMap = Map<Seq<char>, TypeV>;

/// The outcome of checking an expression: its tagged form with the
/// variables known afterwards, an error message with the variables known
/// when the error was found, or `Stuck` where the checker has no answer
/// for the construct.
pub enum Checked<T> {
    Done(T, TypeMap),
    Fail(Seq<char>, TypeMap),
    Stuck,
}

/// The outcome of checking a statement: its tagged form with the type
/// names and the variables known afterwards, an error message, or `Stuck`.
pub enum Step<T> {
    Done(T, TypeMap, TypeMap),
    Fail(Seq<char>),
    Stuck,
}

/// The outcome of something that failed, carried over to another kind.
pub open spec fn carry<A, B>(c: Checked<A>) -> Checked<B> {
    match c {
        Checked::Fail(m, v) => Checked::Fail(m, v),
        _ => Checked::Stuck,
    }
}

/// The outcome of something that failed, carried over to a statement.
pub open spec fn carry_step<A, B>(c: Checked<A>) -> Step<B> {
    match c {
        Checked::Fail(m, _) => Step::Fail(m),
        _ => Step::Stuck,
    }
}

/// The outcome of a failed statement, carried over to another kind.
pub open spec fn carry_steps<A, B>(c: Step<A>) -> Step<B> {
    match c {
        Step::Fail(m) => Step::Fail(m),
        _ => Step::Stuck,
    }
}

/// The message for a name that is not bound.
pub open spec fn unknown_identifier_text(name: Seq<char>) -> Seq<char> {
    "Encountered unknown identifier: "@ + name
}

/// The message for indexing into a value that is not an array.
pub open spec fn non_array_text() -> Seq<char> {
    "Cannot index into non-array type"@
}

/// The type that a written type name denotes; `None` where the checker
/// has no answer: an unknown name, or a generic type other than an array.
pub open spec fn type_of_name(tenv: TypeMap, tn: TypeName) -> Option<TypeV>
    decreases tn, 0nat,
{
    match tn {
        TypeName::Type(id) => if tenv.contains_key(id.value@) {
            Some(tenv[id.value@])
        } else {
            None
        },
        TypeName::ArrayType(inner) => match type_of_name(tenv, *inner) {
            Some(t) => Some(TypeV::Apply(ConstructorV::Array(Box::new(t)), Seq::empty())),
            None => None,
        },
        TypeName::GenericType(_, _) => None,
        TypeName::Function(args, ret) => match (types_of_names(tenv, args@), type_of_name(tenv, *ret)) {
            (Some(a), Some(r)) => Some(TypeV::Apply(ConstructorV::Arrow, a.push(r))),
            _ => None,
        },
    }
}

/// `type_of_name` of each type name, `None` when any is `None`.
pub open spec fn types_of_names(tenv: TypeMap, s: Seq<Box<TypeName>>) -> Option<Seq<TypeV>>
    decreases s, 0nat,
{
    if s.len() == 0 {
        Some(Seq::empty())
    } else {
        match (types_of_names(tenv, s.drop_last()), type_of_name(tenv, *s.last())) {
            (Some(a), Some(t)) => Some(a.push(t)),
            _ => None,
        }
    }
}

/// The type of a missing return type: the type named `Void`.
pub open spec fn return_type_of(tenv: TypeMap, ret: Option<Box<TypeName>>) -> Option<TypeV> {
    match ret {
        Some(tn) => type_of_name(tenv, *tn),
        None => if tenv.contains_key("Void"@) {
            Some(tenv["Void"@])
        } else {
            None
        },
    }
}

/// The type map with each of the names bound to its own variable.
pub open spec fn with_type_variables(tenv: TypeMap, fs: Seq<Seq<char>>) -> TypeMap
    decreases fs.len(),
{
    if fs.len() == 0 {
        tenv
    } else {
        with_type_variables(tenv, fs.drop_last()).insert(fs.last(), TypeV::Variable(fs.last()))
    }
}

/// The names of an optional list, or no names.
pub open spec fn names_or_none(fs: Option<Vec<Identifier>>) -> Seq<Seq<char>> {
    match fs {
        Some(v) => names_view(v@),
        None => Seq::empty(),
    }
}

/// Unifies each argument's type with the parameter type under `all`, pair
/// by pair as far as the shorter list goes, stopping at the first failure.
/// `None` where an argument has no type that can be asked for.
pub open spec fn unify_arguments(ps: Seq<TypeV>, es: Seq<TaggedV>, all: TypeMap) -> Option<
    Result<(), Seq<char>>,
>
    decreases es.len(),
{
    if ps.len() == 0 || es.len() == 0 {
        Some(Ok(()))
    } else {
        match tagged_type(es[0]) {
            None => None,
            Some(t) => match unify_outcome(t, subst(ps[0], all)) {
                Err(m) => Some(Err(mismatch_text(m))),
                Ok(()) => unify_arguments(ps.drop_first(), es.drop_first(), all),
            },
        }
    }
}

/// The first expression given for the field `name`, if any.
pub open spec fn find_field(
    params: Seq<(Identifier, Box<Expression>)>,
    name: Seq<char>,
) -> Option<int>
    decreases params.len(),
{
    if params.len() == 0 {
        None
    } else if params[0].0@ == name {
        Some(0)
    } else {
        match find_field(params.drop_first(), name) {
            Some(j) => Some(j + 1),
            None => None,
        }
    }
}

/// Checks an expression with the given type names and variables.
pub open spec fn check_expression(tenv: TypeMap, venv: TypeMap, e: Expression) -> Checked<TaggedV>
    decreases e, 0nat,
{
    match e {
        Expression::DotAccess(_, _) => Checked::Stuck,
        Expression::BracketAccess(a, i) => match check_expression(tenv, venv, *a) {
            Checked::Done(ta, v1) => match check_expression(tenv, v1, *i) {
                Checked::Done(ti, v2) => match tagged_type(ti) {
                    None => Checked::Stuck,
                    Some(tit) => match unify_outcome(tit, simple(ConstructorV::Int)) {
                        Err(m) => Checked::Fail(mismatch_text(m), v2),
                        Ok(()) => match tagged_type(ta) {
                            None => Checked::Stuck,
                            Some(TypeV::Apply(ConstructorV::Array(inner), _)) => Checked::Done(
                                TaggedV::BracketAccess(Box::new(ta), Box::new(ti), *inner),
                                v2,
                            ),
                            Some(_) => Checked::Fail(non_array_text(), v2),
                        },
                    },
                },
                other => carry(other),
            },
            other => carry(other),
        },
        Expression::Or(a, b) => match check_expression(tenv, venv, *a) {
            Checked::Done(ta, v1) => combine_boolean(
                Checked::Done(ta, v1),
                check_expression(tenv, v1, *b),
                true,
            ),
            other => carry(other),
        },
        Expression::And(a, b) => match check_expression(tenv, venv, *a) {
            Checked::Done(ta, v1) => combine_boolean(
                Checked::Done(ta, v1),
                check_expression(tenv, v1, *b),
                false,
            ),
            other => carry(other),
        },
        Expression::Array(es) => if es@.len() == 0 {
            Checked::Stuck
        } else {
            match check_expression(tenv, venv, *es@[0]) {
                Checked::Done(first, v1) => match check_array_rest(
                    tenv,
                    v1,
                    es@.subrange(1, es@.len() as int),
                    tagged_type(first),
                ) {
                    Checked::Done(rest, v2) => match tagged_type(first) {
                        None => Checked::Stuck,
                        Some(ft) => Checked::Done(
                            TaggedV::Array(
                                seq![first] + rest,
                                TypeV::Apply(ConstructorV::Array(Box::new(ft)), Seq::empty()),
                            ),
                            v2,
                        ),
                    },
                    other => carry(other),
                },
                other => carry(other),
            }
        },
        Expression::Assignment(l, r) => match check_expression(tenv, venv, l.0) {
            Checked::Done(tl, v1) => match check_expression(tenv, v1, *r) {
                Checked::Done(tr, v2) => match (tagged_type(tl), tagged_type(tr)) {
                    (Some(lt), Some(rt)) => match unify_outcome(lt, rt) {
                        Err(m) => Checked::Fail(mismatch_text(m), v2),
                        Ok(()) => Checked::Done(
                            TaggedV::Assignment(Box::new(tl), Box::new(tr), lt),
                            v2,
                        ),
                    },
                    _ => Checked::Stuck,
                },
                other => carry(other),
            },
            other => carry(other),
        },
        Expression::Boolean(b) => Checked::Done(TaggedV::Boolean(b), venv),
        Expression::FunctionCall(ident, generics, args) => match types_of_names(tenv, generics@) {
            None => Checked::Stuck,
            Some(gs) => if !venv.contains_key(ident.value@) {
                Checked::Fail(unknown_identifier_text(ident.value@), venv)
            } else {
                match check_expressions(tenv, venv, args@) {
                    Checked::Done(targs, v2) => match expansion(venv[ident.value@]) {
                        TypeV::Polymorphic(gens, inner) => match *inner {
                            TypeV::Apply(_, types) => if types.len() == 0 {
                                Checked::Stuck
                            } else {
                                let all = tenv.union_prefer_right(zip_map(gens, gs));
                                match unify_arguments(types.drop_last(), targs, all) {
                                    None => Checked::Stuck,
                                    Some(Err(m)) => Checked::Fail(m, v2),
                                    Some(Ok(())) => Checked::Done(
                                        TaggedV::FunctionCall(
                                            ident.value@,
                                            ident.span,
                                            targs,
                                            subst(types.last(), all),
                                        ),
                                        v2,
                                    ),
                                }
                            },
                            _ => Checked::Stuck,
                        },
                        _ => Checked::Stuck,
                    },
                    other => carry(other),
                }
            },
        },
        Expression::Identifier(x) => if venv.contains_key(x.value@) {
            Checked::Done(TaggedV::Identifier(x.value@, x.span, venv[x.value@]), venv)
        } else {
            Checked::Fail(unknown_identifier_text(x.value@), venv)
        },
        Expression::String(s) => Checked::Done(TaggedV::Str(s.value@, s.span), venv),
        Expression::Operation(l, op, r) => match check_expression(tenv, venv, *l) {
            Checked::Done(tl, v1) => match check_expression(tenv, v1, *r) {
                Checked::Done(tr, v2) => match tagged_type(tl) {
                    None => Checked::Stuck,
                    Some(lt) => Checked::Done(
                        TaggedV::Operation(Box::new(tl), op.value, op.span, Box::new(tr), lt),
                        v2,
                    ),
                },
                other => carry(other),
            },
            other => carry(other),
        },
        Expression::Float(n) => Checked::Done(TaggedV::Float(n.value@, n.span), venv),
        Expression::Int(n) => Checked::Done(TaggedV::Int(n.value, n.span), venv),
        Expression::StructInstantiation(ident, maybe_args, params) => match (match maybe_args {
            Some(a) => types_of_names(tenv, a@),
            None => Some(Seq::empty()),
        }) {
            None => Checked::Stuck,
            Some(gs) => if !venv.contains_key(ident.value@) {
                Checked::Fail(unknown_identifier_text(ident.value@), venv)
            } else if !tenv.contains_key(ident.value@) {
                Checked::Stuck
            } else {
                match expansion(venv[ident.value@]) {
                    TypeV::Polymorphic(gens, record) => match *record {
                        TypeV::Apply(ConstructorV::Record(fields), _) => {
                            let all = tenv.union_prefer_right(zip_map(gens, gs));
                            match check_fields(tenv, venv, fields, params@, all) {
                                Checked::Done(tfs, v2) => Checked::Done(
                                    TaggedV::StructInstantiation(
                                        TypeV::Apply(
                                            ConstructorV::Record(field_types(tfs)),
                                            Seq::empty(),
                                        ),
                                        tfs,
                                    ),
                                    v2,
                                ),
                                other => carry(other),
                            }
                        },
                        _ => Checked::Stuck,
                    },
                    _ => Checked::Stuck,
                }
            },
        },
        Expression::Unary(u, a) => match check_expression(tenv, venv, *a) {
            Checked::Done(ta, v1) => match tagged_type(ta) {
                None => Checked::Stuck,
                Some(t) => match unify_outcome(
                    t,
                    simple(
                        match u {
                            Unary::Not => ConstructorV::Bool,
                            Unary::Negate => ConstructorV::Float,
                        },
                    ),
                ) {
                    Err(m) => Checked::Fail(mismatch_text(m), v1),
                    Ok(()) => Checked::Done(TaggedV::Unary(u, Box::new(ta), t), v1),
                },
            },
            other => carry(other),
        },
        Expression::Variable(x, a) => match check_expression(tenv, venv, *a) {
            Checked::Done(ta, v1) => match tagged_type(ta) {
                None => Checked::Stuck,
                Some(t) => Checked::Done(
                    TaggedV::Variable(x.value@, x.span, Box::new(ta), t),
                    v1.insert(x.value@, t),
                ),
            },
            other => carry(other),
        },
        Expression::ParseError => Checked::Stuck,
    }
}

/// The result of an `or` (when `is_or`) or an `and`, once both sides are
/// checked: both sides must be `Bool`s.
pub open spec fn combine_boolean(ca: Checked<TaggedV>, cb: Checked<TaggedV>, is_or: bool) -> Checked<TaggedV> {
    match ca {
        Checked::Done(ta, _) => match cb {
            Checked::Done(tb, v2) => match tagged_type(ta) {
                None => Checked::Stuck,
                Some(at) => match unify_outcome(at, simple(ConstructorV::Bool)) {
                    Err(m) => Checked::Fail(mismatch_text(m), v2),
                    Ok(()) => match tagged_type(tb) {
                        None => Checked::Stuck,
                        Some(bt) => match unify_outcome(bt, at) {
                            Err(m) => Checked::Fail(mismatch_text(m), v2),
                            Ok(()) => Checked::Done(
                                if is_or {
                                    TaggedV::Or(Box::new(ta), Box::new(tb))
                                } else {
                                    TaggedV::And(Box::new(ta), Box::new(tb))
                                },
                                v2,
                            ),
                        },
                    },
                },
            },
            other => carry(other),
        },
        other => carry(other),
    }
}

/// Checks the expressions in order, threading the variables through.
pub open spec fn check_expressions(tenv: TypeMap, venv: TypeMap, s: Seq<Box<Expression>>) -> Checked<
    Seq<TaggedV>,
>
    decreases s, 0nat,
{
    if s.len() == 0 {
        Checked::Done(Seq::empty(), venv)
    } else {
        match check_expression(tenv, venv, *s[0]) {
            Checked::Done(t, v1) => match check_expressions(tenv, v1, s.subrange(1, s.len() as int)) {
                Checked::Done(ts, v2) => Checked::Done(seq![t] + ts, v2),
                other => other,
            },
            other => carry(other),
        }
    }
}

/// Checks the elements of an array after the first, each of whose types
/// must unify with the first one's.
pub open spec fn check_array_rest(
    tenv: TypeMap,
    venv: TypeMap,
    s: Seq<Box<Expression>>,
    first: Option<TypeV>,
) -> Checked<Seq<TaggedV>>
    decreases s, 0nat,
{
    if s.len() == 0 {
        Checked::Done(Seq::empty(), venv)
    } else {
        match check_expression(tenv, venv, *s[0]) {
            Checked::Done(t, v1) => match (first, tagged_type(t)) {
                (Some(ft), Some(et)) => match unify_outcome(ft, et) {
                    Err(m) => Checked::Fail(mismatch_text(m), v1),
                    Ok(()) => match check_array_rest(
                        tenv,
                        v1,
                        s.subrange(1, s.len() as int),
                        first,
                    ) {
                        Checked::Done(ts, v2) => Checked::Done(seq![t] + ts, v2),
                        other => other,
                    },
                },
                _ => Checked::Stuck,
            },
            other => carry(other),
        }
    }
}

/// The names and types of checked record fields.
pub open spec fn field_types(s: Seq<(Seq<char>, TaggedV)>) -> Seq<(Seq<char>, TypeV)> {
    Seq::new(s.len(), |i: int| (s[i].0, tagged_type(s[i].1).unwrap()))
}

/// Checks, for each field of the record in order, the first expression
/// given for it, whose type must unify with the field's type under `all`.
pub open spec fn check_fields(
    tenv: TypeMap,
    venv: TypeMap,
    fields: Seq<(Seq<char>, TypeV)>,
    params: Seq<(Identifier, Box<Expression>)>,
    all: TypeMap,
) -> Checked<Seq<(Seq<char>, TaggedV)>>
    decreases params, fields.len(),
{
    if fields.len() == 0 {
        Checked::Done(Seq::empty(), venv)
    } else {
        match find_field(params, fields[0].0) {
            None => Checked::Stuck,
            Some(j) => if 0 <= j < params.len() {
                match check_expression(tenv, venv, *params[j].1) {
                    Checked::Done(t, v1) => match tagged_type(t) {
                        None => Checked::Stuck,
                        Some(et) => match unify_outcome(et, subst(fields[0].1, all)) {
                            Err(m) => Checked::Fail(mismatch_text(m), v1),
                            Ok(()) => match check_fields(tenv, v1, fields.drop_first(), params, all) {
                                Checked::Done(ts, v2) => Checked::Done(seq![(fields[0].0, t)] + ts, v2),
                                other => other,
                            },
                        },
                    },
                    other => carry(other),
                }
            } else {
                Checked::Stuck
            },
        }
    }
}

/// The names and types of parameters; `None` when a type name has no
/// answer.
pub open spec fn types_of_params(tenv: TypeMap, ps: Seq<(Identifier, Box<TypeName>)>) -> Option<
    Seq<(Seq<char>, TypeV)>,
>
    decreases ps.len(),
{
    if ps.len() == 0 {
        Some(Seq::empty())
    } else {
        match (types_of_params(tenv, ps.drop_last()), type_of_name(tenv, *ps.last().1)) {
            (Some(a), Some(t)) => Some(a.push((ps.last().0@, t))),
            _ => None,
        }
    }
}

/// The map with each (name, type) pair inserted in order.
pub open spec fn insert_all(m: TypeMap, ps: Seq<(Seq<char>, TypeV)>) -> TypeMap
    decreases ps.len(),
{
    if ps.len() == 0 {
        m
    } else {
        insert_all(m, ps.drop_last()).insert(ps.last().0, ps.last().1)
    }
}

/// The types of (name, type) pairs.
pub open spec fn second_of(ps: Seq<(Seq<char>, TypeV)>) -> Seq<TypeV> {
    Seq::new(ps.len(), |i: int| ps[i].1)
}

/// Checks a statement with the given type names and variables.  A struct
/// declaration binds its name, as a type and as a value, to a polymorphic
/// record type.  A function declaration binds its parameters and its own
/// name as variables, and checks its body with its type parameters bound
/// to themselves; an extern declaration binds its name to its signature.
pub open spec fn check_statement(tenv: TypeMap, venv: TypeMap, s: Statement) -> Step<
    TaggedStatementV,
>
    decreases s, 0nat,
{
    match s {
        Statement::ExternFunctionDeclaration(name, params, ret) => match (
            types_of_names(tenv, params@),
            return_type_of(tenv, ret),
        ) {
            (Some(ts), Some(rt)) => Step::Done(
                TaggedStatementV::ExternFunctionDeclaration(
                    FunctionDeclarationV {
                        name: name@,
                        params: Seq::new(ts.len(), |i: int| (Seq::<char>::empty(), ts[i])),
                        return_type: rt,
                    },
                ),
                tenv,
                venv.insert(
                    name@,
                    TypeV::Polymorphic(
                        Seq::empty(),
                        Box::new(TypeV::Apply(ConstructorV::Arrow, ts.push(rt))),
                    ),
                ),
            ),
            _ => Step::Stuck,
        },
        Statement::StructDeclaration(name, formals, fields) => {
            let fs = names_or_none(formals);
            let local = with_type_variables(tenv, fs);
            match types_of_params(local, fields@) {
                None => Step::Stuck,
                Some(tf) => {
                    let new_type = TypeV::Polymorphic(
                        fs,
                        Box::new(TypeV::Apply(ConstructorV::Record(tf), second_of(tf))),
                    );
                    Step::Done(
                        TaggedStatementV::StructDeclaration,
                        tenv.insert(name@, new_type),
                        venv.insert(name@, new_type),
                    )
                },
            }
        },
        Statement::FunctionDeclaration(name, formals, params, ret, body) => {
            let fs = names_or_none(formals);
            let local = with_type_variables(tenv, fs);
            match types_of_params(local, params@) {
                None => Step::Stuck,
                Some(pts) => match return_type_of(local, ret) {
                    None => Step::Stuck,
                    Some(rt) => {
                        let v1 = insert_all(venv, pts).insert(
                            name@,
                            TypeV::Polymorphic(
                                fs,
                                Box::new(TypeV::Apply(ConstructorV::Arrow, second_of(pts).push(rt))),
                            ),
                        );
                        match check_block(local, v1, body@) {
                            Step::Done(tb, _, v2) => Step::Done(
                                TaggedStatementV::FunctionDeclaration(
                                    FunctionDeclarationV { name: name@, params: pts, return_type: rt },
                                    tb,
                                ),
                                tenv,
                                v2,
                            ),
                            other => carry_steps(other),
                        }
                    },
                },
            }
        },
        Statement::Expression(e) => match check_expression(tenv, venv, *e) {
            Checked::Done(te, v1) => Step::Done(TaggedStatementV::Expression(te), tenv, v1),
            other => carry_step(other),
        },
        Statement::Return(None) => Step::Done(TaggedStatementV::Return(None), tenv, venv),
        Statement::Return(Some(e)) => match check_expression(tenv, venv, *e) {
            Checked::Done(te, v1) => Step::Done(TaggedStatementV::Return(Some(te)), tenv, v1),
            other => carry_step(other),
        },
        Statement::IfElse(c, body, else_block) => match check_expression(tenv, venv, *c) {
            Checked::Done(tc, v1) => match tagged_type(tc) {
                None => Step::Stuck,
                Some(ct) => match unify_outcome(ct, simple(ConstructorV::Bool)) {
                    Err(m) => Step::Fail(mismatch_text(m)),
                    Ok(()) => match check_block(tenv, v1, body@) {
                        Step::Done(tb, t2, v2) => match else_block {
                            None => Step::Done(TaggedStatementV::IfElse(tc, tb, None), t2, v2),
                            Some(eb) => match check_block(t2, v2, eb@) {
                                Step::Done(te, t3, v3) => Step::Done(
                                    TaggedStatementV::IfElse(tc, tb, Some(te)),
                                    t3,
                                    v3,
                                ),
                                other => carry_steps(other),
                            },
                        },
                        other => carry_steps(other),
                    },
                },
            },
            other => carry_step(other),
        },
    }
}

/// Checks the statements in order, threading the type names and the
/// variables through.
pub open spec fn check_block(tenv: TypeMap, venv: TypeMap, s: Seq<Box<Statement>>) -> Step<
    Seq<TaggedStatementV>,
>
    decreases s, 0nat,
{
    if s.len() == 0 {
        Step::Done(Seq::empty(), tenv, venv)
    } else {
        match check_statement(tenv, venv, *s[0]) {
            Step::Done(t, t1, v1) => match check_block(t1, v1, s.subrange(1, s.len() as int)) {
                Step::Done(ts, t2, v2) => Step::Done(seq![t] + ts, t2, v2),
                other => other,
            },
            other => carry_steps(other),
        }
    }
}

/// The type names every program starts with.  `Number` is the name that
/// programs use for floating-point numbers.
pub open spec fn builtin_type_map() -> TypeMap {
    Map::empty().insert("Int"@, simple(ConstructorV::Int)).insert(
        "Float"@,
        simple(ConstructorV::Float),
    ).insert("String"@, simple(ConstructorV::Str)).insert("Void"@, simple(ConstructorV::Void)).insert(
        "Bool"@,
        simple(ConstructorV::Bool),
    ).insert("Number"@, simple(ConstructorV::Float))
}

/// Checks a whole program, starting from the builtin type names and no
/// variables.
pub open spec fn check_program(s: Seq<Box<Statement>>) -> Step<Seq<TaggedStatementV>> {
    check_block(builtin_type_map(), Map::empty(), s)
}

/// Checking a block in two parts, the second with the type names and the
/// variables the first leaves, is checking it whole.
pub proof fn lemma_check_block_append(
    tenv: TypeMap,
    venv: TypeMap,
    s1: Seq<Box<Statement>>,
    s2: Seq<Box<Statement>>,
)
    ensures
        check_block(tenv, venv, s1 + s2) == match check_block(tenv, venv, s1) {
            Step::Done(t1, te, ve) => match check_block(te, ve, s2) {
                Step::Done(t2, tf, vf) => Step::Done(t1 + t2, tf, vf),
                other => other,
            },
            other => carry_steps(other),
        },
    decreases s1.len(),
{
    if s1.len() == 0 {
        assert(s1 + s2 =~= s2);
        match check_block(tenv, venv, s2) {
            Step::Done(t2, tf, vf) => {
                assert(Seq::<TaggedStatementV>::empty() + t2 =~= t2);
            },
            _ => {},
        }
    } else {
        let whole = s1 + s2;
        assert(whole[0] == s1[0]);
        assert(whole.subrange(1, whole.len() as int) =~= s1.subrange(1, s1.len() as int) + s2);
        match check_statement(tenv, venv, *s1[0]) {
            Step::Done(t, t1, v1) => {
                lemma_check_block_append(t1, v1, s1.subrange(1, s1.len() as int), s2);
                match check_block(t1, v1, s1.subrange(1, s1.len() as int)) {
                    Step::Done(ts, te, ve) => {
                        match check_block(te, ve, s2) {
                            Step::Done(t2, tf, vf) => {
                                assert(seq![t] + (ts + t2) =~= (seq![t] + ts) + t2);
                            },
                            _ => {},
                        }
                    },
                    _ => {},
                }
            },
            _ => {},
        }
    }
}

} // verus!
