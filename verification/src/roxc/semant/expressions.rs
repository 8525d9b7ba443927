//! Type checking of expressions: each expression is translated into its
//! tagged form, as `check_expression` describes it.
use vstd::prelude::*;
use crate::roxc::errors::{placeholder_error, RoxError};
use crate::roxc::parser::syntax::{Expression, Spanned, Unary};
use crate::roxc::semant::checker_spec::{
    carry, check_array_rest, check_expression, check_expressions, check_fields, combine_boolean,
    field_types, find_field, non_array_text, types_of_names, unify_arguments,
    unknown_identifier_text, Checked, TypeMap,
};
use crate::roxc::semant::env::{zip_map, zip_prefix, Env, TypeEnv, VariableEnv};
use crate::roxc::semant::substitution::{subst, substitute};
use crate::roxc::semant::tagged_syntax::{
    lemma_tagged_fields_view, lemma_tagged_seq_view, simple, simple_type, tagged_fields_view,
    tagged_seq_view, tagged_type, tagged_view, TaggedExpression, TaggedLValue, TaggedV,
};
use crate::roxc::semant::type_checker::{translate_type_identifiers, Failure};
use crate::roxc::semant::types::{
    fields_view, lemma_fields_view, lemma_tys_view, names_view, tc_view, ty_view, tys_view,
    ConstructorV, Identifier, Type, TypeConstructor, TypeV,
};
use crate::roxc::semant::unification::{
    expand, expansion, lemma_expand_ordinary, lemma_ordinary_fields, lemma_ordinary_seq,
    lemma_subst_ordinary, lemma_unify_ordinary, mismatch_text, ordinary, ordinary_constructor,
    ordinary_fields, ordinary_map, ordinary_seq, unify, unify_outcome,
};
use crate::roxc::text::push_str;

verus! {

broadcast use vstd::seq::group_seq_axioms, vstd::std_specs::vec::group_vec_axioms;

/// A tagged expression whose type, where it has one, is `ordinary`.
pub open spec fn typed_ordinary(e: TaggedV) -> bool {
    tagged_type(e) matches Some(t) ==> ordinary(t)
}

/// Whether an executable outcome is the one the model gives.
pub open spec fn agrees<T: View>(r: Result<T, Failure>, c: Checked<T::V>, venv: TypeMap) -> bool {
    match c {
        Checked::Done(t, v) => r matches Ok(x) && x@ == t && venv == v,
        Checked::Fail(m, v) => r matches Err(Failure::Error(e)) && placeholder_error(e, m) && venv == v,
        Checked::Stuck => r matches Err(Failure::Unsupported),
    }
}

/// Unifies two ordinary types, reporting a failure as an error.
fn unify_checked(a: Type, b: Type) -> (r: Result<(), Failure>)
    requires
        ordinary(a@),
        ordinary(b@),
    ensures
        match unify_outcome(a@, b@) {
            Ok(()) => r is Ok,
            Err(m) => r matches Err(Failure::Error(e)) && placeholder_error(e, mismatch_text(m)),
        },
{
    proof {
        lemma_unify_ordinary(a@, b@);
    }
    match unify(a, b) {
        Ok(()) => Ok(()),
        Err(e) => Err(Failure::Error(e)),
    }
}

/// The type of a tagged expression, or `Unsupported` where it has none.
fn type_checked(e: &TaggedExpression) -> (r: Result<Type, Failure>)
    ensures
        match tagged_type(e@) {
            Some(t) => r matches Ok(x) && x@ == t,
            None => r matches Err(Failure::Unsupported),
        },
{
    match e.type_of() {
        Some(t) => Ok(t),
        None => Err(Failure::Unsupported),
    }
}

/// The error for a name that is not bound.
fn unknown_identifier(name: &Identifier) -> (r: Failure)
    ensures
        r matches Failure::Error(e) && placeholder_error(e, unknown_identifier_text(name@)),
{
    let mut text = String::new();
    push_str(&mut text, "Encountered unknown identifier: ");
    push_str(&mut text, name.as_str());
    Failure::Error(RoxError::with_file_placeholder(text.as_str()))
}

/// A copy of a spanned name.
fn copy_name(x: &Spanned<Identifier>) -> (r: Spanned<Identifier>)
    ensures
        r.value@ == x.value@,
        r.span == x.span,
{
    Spanned { value: x.value.clone(), span: x.span }
}

/// Inserting pairs one at a time builds the zipped map on top.
proof fn lemma_union_zip_step(m: TypeMap, ns: Seq<Seq<char>>, ts: Seq<TypeV>, n: int)
    requires
        0 <= n,
    ensures
        m.union_prefer_right(zip_prefix(ns, ts, n)).insert(ns[n], ts[n])
            =~= m.union_prefer_right(zip_prefix(ns, ts, n + 1)),
{
}

/// Binds the names to the types, position by position, on top of `env`.
fn extend_with_zip(env: &mut Env, names: &Vec<Identifier>, types: &Vec<Type>)
    requires
        ordinary_map(old(env)@),
        ordinary_seq(tys_view(types@)),
    ensures
        final(env)@ == old(env)@.union_prefer_right(zip_map(names_view(names@), tys_view(types@))),
        ordinary_map(final(env)@),
{
    let ghost ns = names_view(names@);
    let ghost ts = tys_view(types@);
    let ghost m0 = env@;
    proof {
        lemma_tys_view(types@);
        lemma_ordinary_seq(ts);
        assert(m0.union_prefer_right(zip_prefix(ns, ts, 0)) =~= m0);
    }
    let n = if names.len() < types.len() {
        names.len()
    } else {
        types.len()
    };
    let mut i: usize = 0;
    while i < n
        invariant
            i <= n,
            n <= names.len(),
            n <= types.len(),
            n == (if ns.len() < ts.len() { ns.len() as int } else { ts.len() as int }),
            ns == names_view(names@),
            ts == tys_view(types@),
            ts.len() == types@.len(),
            forall|j: int| 0 <= j < types@.len() ==> #[trigger] ts[j] == ty_view(types@[j]),
            forall|j: int| 0 <= j < ts.len() ==> #[trigger] ordinary(ts[j]),
            env@ == m0.union_prefer_right(zip_prefix(ns, ts, i as int)),
            ordinary_map(env@),
        decreases n - i,
    {
        proof {
            lemma_union_zip_step(m0, ns, ts, i as int);
        }
        env.insert(names[i].clone(), types[i].duplicate());
        i += 1;
    }
}

/// Translates the expressions in order, threading the variables through.
fn translate_expressions(
    type_env: &mut TypeEnv,
    variable_env: &mut VariableEnv,
    expressions: &Vec<Box<Expression>>,
) -> (r: Result<Vec<TaggedExpression>, Failure>)
    requires
        ordinary_map(old(type_env)@),
        ordinary_map(old(variable_env)@),
    ensures
        *final(type_env) == *old(type_env),
        match check_expressions(old(type_env)@, old(variable_env)@, expressions@) {
            Checked::Done(t, v) => r matches Ok(x) && tagged_seq_view(x@) == t && final(variable_env)@ == v,
            Checked::Fail(m, v) => r matches Err(Failure::Error(e)) && placeholder_error(e, m)
                && final(variable_env)@ == v,
            Checked::Stuck => r matches Err(Failure::Unsupported),
        },
        r matches Ok(x) ==> ordinary_map(final(variable_env)@) && forall|i: int|
            0 <= i < x@.len() ==> #[trigger] typed_ordinary(tagged_view(x@[i])),
    decreases expressions, 0nat,
{
    let ghost tenv = type_env@;
    let ghost venv0 = variable_env@;
    let ghost s = expressions@;
    let mut r: Vec<TaggedExpression> = Vec::new();
    let mut i: usize = 0;
    proof {
        assert(s.subrange(0, s.len() as int) =~= s);
        assert(tagged_seq_view(r@) =~= Seq::<TaggedV>::empty());
    }
    while i < expressions.len()
        invariant
            i <= expressions.len(),
            s == expressions@,
            tenv == type_env@,
            *type_env == *old(type_env),
            ordinary_map(tenv),
            ordinary_map(variable_env@),
            venv0 == old(variable_env)@,
            check_expressions(tenv, venv0, s) == match check_expressions(
                tenv,
                variable_env@,
                s.subrange(i as int, s.len() as int),
            ) {
                Checked::Done(ts, v) => Checked::Done(tagged_seq_view(r@) + ts, v),
                other => other,
            },
            forall|j: int| 0 <= j < r@.len() ==> #[trigger] typed_ordinary(tagged_view(r@[j])),
        decreases expressions.len() - i,
    {
        let ghost v_before = variable_env@;
        let ghost rest = s.subrange(i as int, s.len() as int);
        proof {
            assert(rest[0] == s[i as int]);
            assert(rest.subrange(1, rest.len() as int) =~= s.subrange(i + 1, s.len() as int));
        }
        let t = match translate_expression(type_env, variable_env, &expressions[i]) {
            Ok(t) => t,
            Err(e) => {
                return Err(e);
            },
        };
        let ghost r0 = r@;
        r.push(t);
        proof {
            assert(r@.drop_last() =~= r0);
            lemma_tagged_seq_view(r0);
            lemma_tagged_seq_view(r@);
            match check_expressions(tenv, variable_env@, s.subrange(i + 1, s.len() as int)) {
                Checked::Done(ts, v) => {
                    assert(tagged_seq_view(r@) + ts =~= tagged_seq_view(r0) + (seq![t@] + ts));
                },
                _ => {},
            }
        }
        i += 1;
    }
    proof {
        assert(s.subrange(s.len() as int, s.len() as int) =~= Seq::<Box<Expression>>::empty());
        assert(tagged_seq_view(r@) + Seq::<TaggedV>::empty() =~= tagged_seq_view(r@));
        lemma_tagged_seq_view(r@);
    }
    Ok(r)
}

/// Translates the place an assignment writes to.
fn translate_lvalue(
    type_env: &mut TypeEnv,
    variable_env: &mut VariableEnv,
    lval: &crate::roxc::parser::syntax::LValue,
) -> (r: Result<TaggedLValue, Failure>)
    requires
        ordinary_map(old(type_env)@),
        ordinary_map(old(variable_env)@),
    ensures
        *final(type_env) == *old(type_env),
        match check_expression(old(type_env)@, old(variable_env)@, lval.0) {
            Checked::Done(t, v) => r matches Ok(x) && tagged_view(x.0) == t && final(variable_env)@ == v,
            Checked::Fail(m, v) => r matches Err(Failure::Error(e)) && placeholder_error(e, m)
                && final(variable_env)@ == v,
            Checked::Stuck => r matches Err(Failure::Unsupported),
        },
        r matches Ok(x) ==> ordinary_map(final(variable_env)@) && typed_ordinary(tagged_view(x.0)),
    decreases lval, 0nat,
{
    match translate_expression(type_env, variable_env, &lval.0) {
        Ok(t) => Ok(TaggedLValue(t)),
        Err(e) => Err(e),
    }
}

/// The constructors without arguments are `ordinary` types.
pub proof fn lemma_simple_ordinary()
    ensures
        ordinary(simple(ConstructorV::Bool)),
        ordinary(simple(ConstructorV::Float)),
        ordinary(simple(ConstructorV::Int)),
        ordinary(simple(ConstructorV::Str)),
        ordinary(simple(ConstructorV::Void)),
{
    assert(ordinary_seq(Seq::<TypeV>::empty()));
    assert(ordinary_constructor(ConstructorV::Bool));
    assert(ordinary_constructor(ConstructorV::Float));
    assert(ordinary_constructor(ConstructorV::Int));
    assert(ordinary_constructor(ConstructorV::Str));
    assert(ordinary_constructor(ConstructorV::Void));
}

/// Translates an expression into its tagged form, given the type names
/// and the variables in scope.  A variable declaration binds its name.
pub fn translate_expression(
    type_env: &mut TypeEnv,
    variable_env: &mut VariableEnv,
    expression: &Expression,
) -> (r: Result<TaggedExpression, Failure>)
    requires
        ordinary_map(old(type_env)@),
        ordinary_map(old(variable_env)@),
    ensures
        *final(type_env) == *old(type_env),
        agrees(r, check_expression(old(type_env)@, old(variable_env)@, *expression), final(variable_env)@),
        r matches Ok(x) ==> ordinary_map(final(variable_env)@) && typed_ordinary(x@),
    decreases expression, 1nat,
{
    proof {
        lemma_simple_ordinary();
    }
    match expression {
        Expression::DotAccess(_, _) => Err(Failure::Unsupported),
        Expression::BracketAccess(_, _) => translate_bracket_access(type_env, variable_env, expression),
        Expression::Or(_, _) => translate_boolean(type_env, variable_env, expression),
        Expression::And(_, _) => translate_boolean(type_env, variable_env, expression),
        Expression::Array(_) => translate_array(type_env, variable_env, expression),
        Expression::Assignment(_, _) => translate_assignment(type_env, variable_env, expression),
        Expression::Boolean(b) => Ok(TaggedExpression::Boolean(*b)),
        Expression::FunctionCall(_, _, _) => translate_function_call(type_env, variable_env, expression),
        Expression::Identifier(x) => match variable_env.get(&x.value) {
            Some(t) => Ok(TaggedExpression::Identifier(copy_name(x), Box::new(t.duplicate()))),
            None => Err(unknown_identifier(&x.value)),
        },
        Expression::String(s) => Ok(TaggedExpression::String(Spanned { value: s.value.clone(), span: s.span })),
        Expression::Operation(_, _, _) => translate_operation(type_env, variable_env, expression),
        Expression::Float(n) => Ok(TaggedExpression::Float(Spanned { value: n.value.clone(), span: n.span })),
        Expression::Int(n) => Ok(TaggedExpression::Int(Spanned { value: n.value, span: n.span })),
        Expression::StructInstantiation(_, _, _) => translate_struct_instantiation(
            type_env,
            variable_env,
            expression,
        ),
        Expression::Unary(_, _) => translate_unary(type_env, variable_env, expression),
        Expression::Variable(_, _) => translate_variable(type_env, variable_env, expression),
        Expression::ParseError => Err(Failure::Unsupported),
    }
}

/// Translates an index into an array: the index must be an `Int`, and the
/// indexed value an array, whose element type the access has.
fn translate_bracket_access(
    type_env: &mut TypeEnv,
    variable_env: &mut VariableEnv,
    expression: &Expression,
) -> (r: Result<TaggedExpression, Failure>)
    requires
        ordinary_map(old(type_env)@),
        ordinary_map(old(variable_env)@),
        expression is BracketAccess,
    ensures
        *final(type_env) == *old(type_env),
        agrees(r, check_expression(old(type_env)@, old(variable_env)@, *expression), final(variable_env)@),
        r matches Ok(x) ==> ordinary_map(final(variable_env)@) && typed_ordinary(x@),
    decreases expression, 0nat,
{
    let (array_expr, index_expr) = match expression {
        Expression::BracketAccess(a, i) => (a, i),
        _ => {
            return Err(Failure::Unsupported);
        },
    };
    let tagged_left = match translate_expression(type_env, variable_env, array_expr) {
        Ok(t) => t,
        Err(e) => return Err(e),
    };
    let tagged_right = match translate_expression(type_env, variable_env, index_expr) {
        Ok(t) => t,
        Err(e) => return Err(e),
    };
    let right_type = match type_checked(&tagged_right) {
        Ok(t) => t,
        Err(e) => return Err(e),
    };
    let int_type = simple_type(TypeConstructor::Int);
    proof {
        lemma_simple_ordinary();
        assert(tc_view(TypeConstructor::Int) == ConstructorV::Int);
    }
    match unify_checked(right_type, int_type) {
        Ok(()) => {},
        Err(e) => return Err(e),
    }
    let left_type = match type_checked(&tagged_left) {
        Ok(t) => t,
        Err(e) => return Err(e),
    };
    match left_type {
        Type::Apply(TypeConstructor::Array(inner_type), _) => {
            proof {
                assert(tc_view(TypeConstructor::Array(inner_type)) == ConstructorV::Array(
                    Box::new(ty_view(*inner_type)),
                ));
                assert(ordinary_constructor(ConstructorV::Array(Box::new(ty_view(*inner_type)))));
            }
            Ok(TaggedExpression::BracketAccess(Box::new(tagged_left), Box::new(tagged_right), inner_type))
        },
        Type::Apply(c, _) => {
            proof {
                assert(!(tc_view(c) is Array)) by {
                    match c {
                        TypeConstructor::Array(_) => {},
                        _ => {},
                    }
                }
            }
            Err(Failure::Error(RoxError::with_file_placeholder("Cannot index into non-array type")))
        },
        _ => Err(Failure::Error(RoxError::with_file_placeholder("Cannot index into non-array type"))),
    }
}

/// Translates an array literal: each element's type must unify with the
/// first one's, and the array has the first one's type as element type.
fn translate_array(
    type_env: &mut TypeEnv,
    variable_env: &mut VariableEnv,
    expression: &Expression,
) -> (r: Result<TaggedExpression, Failure>)
    requires
        ordinary_map(old(type_env)@),
        ordinary_map(old(variable_env)@),
        expression is Array,
    ensures
        *final(type_env) == *old(type_env),
        agrees(r, check_expression(old(type_env)@, old(variable_env)@, *expression), final(variable_env)@),
        r matches Ok(x) ==> ordinary_map(final(variable_env)@) && typed_ordinary(x@),
    decreases expression, 0nat,
{
    let expressions = match expression {
        Expression::Array(es) => es,
        _ => {
            return Err(Failure::Unsupported);
        },
    };
    if expressions.len() == 0 {
        return Err(Failure::Unsupported);
    }
    let first = match translate_expression(type_env, variable_env, &expressions[0]) {
        Ok(t) => t,
        Err(e) => return Err(e),
    };
    let first_type = first.type_of();
    let rest = match translate_array_rest(type_env, variable_env, expressions, &first_type) {
        Ok(t) => t,
        Err(e) => return Err(e),
    };
    let ft = match first_type {
        Some(t) => t,
        None => return Err(Failure::Unsupported),
    };
    let ghost ftv = ft@;
    let ghost first_v = first@;
    let ghost rest_v = tagged_seq_view(rest@);
    let mut all_expressions: Vec<TaggedExpression> = Vec::new();
    all_expressions.push(first);
    let mut rest_mut = rest;
    all_expressions.append(&mut rest_mut);
    proof {
        lemma_tagged_seq_view(all_expressions@);
        lemma_tagged_seq_view(rest@);
        assert(tagged_seq_view(all_expressions@) =~= seq![first_v] + rest_v);
    }
    let c = TypeConstructor::Array(Box::new(ft));
    assert(c@ == ConstructorV::Array(Box::new(ftv)));
    let array_type = simple_type(c);
    proof {
        assert(ordinary_constructor(ConstructorV::Array(Box::new(ftv))));
        assert(ordinary_seq(Seq::<TypeV>::empty()));
    }
    Ok(TaggedExpression::Array(all_expressions, Box::new(array_type)))
}

/// Translates an assignment: the assigned value's type must unify with
/// the target's, which is the assignment's type.
fn translate_assignment(
    type_env: &mut TypeEnv,
    variable_env: &mut VariableEnv,
    expression: &Expression,
) -> (r: Result<TaggedExpression, Failure>)
    requires
        ordinary_map(old(type_env)@),
        ordinary_map(old(variable_env)@),
        expression is Assignment,
    ensures
        *final(type_env) == *old(type_env),
        agrees(r, check_expression(old(type_env)@, old(variable_env)@, *expression), final(variable_env)@),
        r matches Ok(x) ==> ordinary_map(final(variable_env)@) && typed_ordinary(x@),
    decreases expression, 0nat,
{
    let (lval, right_expr) = match expression {
        Expression::Assignment(l, e) => (l, e),
        _ => {
            return Err(Failure::Unsupported);
        },
    };
    let tagged_left = match translate_lvalue(type_env, variable_env, lval) {
        Ok(t) => t,
        Err(e) => return Err(e),
    };
    let tagged_right = match translate_expression(type_env, variable_env, right_expr) {
        Ok(t) => t,
        Err(e) => return Err(e),
    };
    let left_type = match type_checked(&tagged_left.0) {
        Ok(t) => t,
        Err(e) => return Err(e),
    };
    let right_type = match type_checked(&tagged_right) {
        Ok(t) => t,
        Err(e) => return Err(e),
    };
    let result_type = left_type.duplicate();
    match unify_checked(left_type, right_type) {
        Ok(()) => {},
        Err(e) => return Err(e),
    }
    Ok(TaggedExpression::Assignment(Box::new(tagged_left), Box::new(tagged_right), Box::new(result_type)))
}

/// Translates a binary operation; it has the type of its left operand.
fn translate_operation(
    type_env: &mut TypeEnv,
    variable_env: &mut VariableEnv,
    expression: &Expression,
) -> (r: Result<TaggedExpression, Failure>)
    requires
        ordinary_map(old(type_env)@),
        ordinary_map(old(variable_env)@),
        expression is Operation,
    ensures
        *final(type_env) == *old(type_env),
        agrees(r, check_expression(old(type_env)@, old(variable_env)@, *expression), final(variable_env)@),
        r matches Ok(x) ==> ordinary_map(final(variable_env)@) && typed_ordinary(x@),
    decreases expression, 0nat,
{
    let (left, operation, right) = match expression {
        Expression::Operation(l, op, r) => (l, op, r),
        _ => {
            return Err(Failure::Unsupported);
        },
    };
    let tagged_left = match translate_expression(type_env, variable_env, left) {
        Ok(t) => t,
        Err(e) => return Err(e),
    };
    let tagged_right = match translate_expression(type_env, variable_env, right) {
        Ok(t) => t,
        Err(e) => return Err(e),
    };
    let left_type = match type_checked(&tagged_left) {
        Ok(t) => t,
        Err(e) => return Err(e),
    };
    proof {
        lemma_simple_ordinary();
    }
    Ok(TaggedExpression::Operation(
        Box::new(tagged_left),
        Spanned { value: operation.value, span: operation.span },
        Box::new(tagged_right),
        Box::new(left_type),
    ))
}

/// Translates a unary operation: `!` takes a `Bool`, `-` a `Float`.
fn translate_unary(
    type_env: &mut TypeEnv,
    variable_env: &mut VariableEnv,
    expression: &Expression,
) -> (r: Result<TaggedExpression, Failure>)
    requires
        ordinary_map(old(type_env)@),
        ordinary_map(old(variable_env)@),
        expression is Unary,
    ensures
        *final(type_env) == *old(type_env),
        agrees(r, check_expression(old(type_env)@, old(variable_env)@, *expression), final(variable_env)@),
        r matches Ok(x) ==> ordinary_map(final(variable_env)@) && typed_ordinary(x@),
    decreases expression, 0nat,
{
    let (unary, expr) = match expression {
        Expression::Unary(u, e) => (u, e),
        _ => {
            return Err(Failure::Unsupported);
        },
    };
    let tagged_expression = match translate_expression(type_env, variable_env, expr) {
        Ok(t) => t,
        Err(e) => return Err(e),
    };
    let t = match type_checked(&tagged_expression) {
        Ok(t) => t,
        Err(e) => return Err(e),
    };
    let expected = match unary {
        Unary::Not => simple_type(TypeConstructor::Bool),
        Unary::Negate => simple_type(TypeConstructor::Float),
    };
    proof {
        lemma_simple_ordinary();
        assert(tc_view(TypeConstructor::Bool) == ConstructorV::Bool);
        assert(tc_view(TypeConstructor::Float) == ConstructorV::Float);
    }
    let result_type = t.duplicate();
    match unify_checked(t, expected) {
        Ok(()) => {},
        Err(e) => return Err(e),
    }
    Ok(TaggedExpression::Unary(*unary, Box::new(tagged_expression), Box::new(result_type)))
}

/// Translates a variable declaration, which binds the name to the type of
/// its value.
fn translate_variable(
    type_env: &mut TypeEnv,
    variable_env: &mut VariableEnv,
    expression: &Expression,
) -> (r: Result<TaggedExpression, Failure>)
    requires
        ordinary_map(old(type_env)@),
        ordinary_map(old(variable_env)@),
        expression is Variable,
    ensures
        *final(type_env) == *old(type_env),
        agrees(r, check_expression(old(type_env)@, old(variable_env)@, *expression), final(variable_env)@),
        r matches Ok(x) ==> ordinary_map(final(variable_env)@) && typed_ordinary(x@),
    decreases expression, 0nat,
{
    let (ident, expr) = match expression {
        Expression::Variable(x, e) => (x, e),
        _ => {
            return Err(Failure::Unsupported);
        },
    };
    let expr_value = match translate_expression(type_env, variable_env, expr) {
        Ok(t) => t,
        Err(e) => return Err(e),
    };
    let t = match type_checked(&expr_value) {
        Ok(t) => t,
        Err(e) => return Err(e),
    };
    variable_env.insert(ident.value.clone(), t.duplicate());
    Ok(TaggedExpression::Variable(copy_name(ident), Box::new(expr_value), Box::new(t)))
}
/// Translates an `or` or an `and`: both sides must be `Bool`s.
fn translate_boolean(
    type_env: &mut TypeEnv,
    variable_env: &mut VariableEnv,
    expression: &Expression,
) -> (r: Result<TaggedExpression, Failure>)
    requires
        ordinary_map(old(type_env)@),
        ordinary_map(old(variable_env)@),
        expression is Or || expression is And,
    ensures
        *final(type_env) == *old(type_env),
        agrees(r, check_expression(old(type_env)@, old(variable_env)@, *expression), final(variable_env)@),
        r matches Ok(x) ==> ordinary_map(final(variable_env)@) && typed_ordinary(x@),
    decreases expression, 0nat,
{
    let (left_expr, right_expr, is_or) = match expression {
        Expression::Or(a, b) => (a, b, true),
        Expression::And(a, b) => (a, b, false),
        _ => {
            return Err(Failure::Unsupported);
        },
    };
    let tagged_left = match translate_expression(type_env, variable_env, left_expr) {
        Ok(t) => t,
        Err(e) => return Err(e),
    };
    let tagged_right = match translate_expression(type_env, variable_env, right_expr) {
        Ok(t) => t,
        Err(e) => return Err(e),
    };
    let left_type = match type_checked(&tagged_left) {
        Ok(t) => t,
        Err(e) => return Err(e),
    };
    let bool_type = simple_type(TypeConstructor::Bool);
    proof {
        assert(tc_view(TypeConstructor::Bool) == ConstructorV::Bool);
        assert(ordinary_constructor(ConstructorV::Bool));
        assert(ordinary_seq(Seq::<TypeV>::empty()));
    }
    let left_copy = left_type.duplicate();
    match unify_checked(left_type, bool_type) {
        Ok(()) => {},
        Err(e) => return Err(e),
    }
    let right_type = match type_checked(&tagged_right) {
        Ok(t) => t,
        Err(e) => return Err(e),
    };
    match unify_checked(right_type, left_copy) {
        Ok(()) => {},
        Err(e) => return Err(e),
    }
    proof {
        assert(ordinary_constructor(ConstructorV::Bool));
    }
    if is_or {
        Ok(TaggedExpression::Or(Box::new(tagged_left), Box::new(tagged_right)))
    } else {
        Ok(TaggedExpression::And(Box::new(tagged_left), Box::new(tagged_right)))
    }
}

/// The model of an optional type.
pub open spec fn option_view(o: Option<Type>) -> Option<TypeV> {
    match o {
        Some(t) => Some(t@),
        None => None,
    }
}

/// Translates the elements of an array after the first, each of whose
/// types must unify with the first one's.
fn translate_array_rest(
    type_env: &mut TypeEnv,
    variable_env: &mut VariableEnv,
    expressions: &Vec<Box<Expression>>,
    first_type: &Option<Type>,
) -> (r: Result<Vec<TaggedExpression>, Failure>)
    requires
        ordinary_map(old(type_env)@),
        ordinary_map(old(variable_env)@),
        expressions@.len() >= 1,
        first_type matches Some(t) ==> ordinary(t@),
    ensures
        *final(type_env) == *old(type_env),
        match check_array_rest(
            old(type_env)@,
            old(variable_env)@,
            expressions@.subrange(1, expressions@.len() as int),
            option_view(*first_type),
        ) {
            Checked::Done(t, v) => r matches Ok(x) && tagged_seq_view(x@) == t && final(variable_env)@ == v,
            Checked::Fail(m, v) => r matches Err(Failure::Error(e)) && placeholder_error(e, m)
                && final(variable_env)@ == v,
            Checked::Stuck => r matches Err(Failure::Unsupported),
        },
        r matches Ok(x) ==> ordinary_map(final(variable_env)@),
    decreases expressions, 0nat,
{
    let ghost tenv = type_env@;
    let ghost venv0 = variable_env@;
    let ghost s = expressions@.subrange(1, expressions@.len() as int);
    let ghost ft = option_view(*first_type);
    let mut r: Vec<TaggedExpression> = Vec::new();
    let mut i: usize = 1;
    proof {
        assert(expressions@.subrange(1, expressions@.len() as int) =~= s);
        assert(tagged_seq_view(r@) =~= Seq::<TaggedV>::empty());
    }
    while i < expressions.len()
        invariant
            1 <= i <= expressions.len(),
            s == expressions@.subrange(1, expressions@.len() as int),
            tenv == type_env@,
            *type_env == *old(type_env),
            ordinary_map(tenv),
            ordinary_map(variable_env@),
            ft == option_view(*first_type),
            venv0 == old(variable_env)@,
            first_type matches Some(t) ==> ordinary(t@),
            check_array_rest(tenv, venv0, s, ft) == match check_array_rest(
                tenv,
                variable_env@,
                expressions@.subrange(i as int, expressions@.len() as int),
                ft,
            ) {
                Checked::Done(ts, v) => Checked::Done(tagged_seq_view(r@) + ts, v),
                other => other,
            },
        decreases expressions.len() - i,
    {
        let ghost rest = expressions@.subrange(i as int, expressions@.len() as int);
        proof {
            assert(rest[0] == expressions@[i as int]);
            assert(rest.subrange(1, rest.len() as int) =~= expressions@.subrange(
                i + 1,
                expressions@.len() as int,
            ));
        }
        let t = match translate_expression(type_env, variable_env, &expressions[i]) {
            Ok(t) => t,
            Err(e) => {
                return Err(e);
            },
        };
        let element_type = match t.type_of() {
            Some(et) => et,
            None => {
                return Err(Failure::Unsupported);
            },
        };
        let first = match first_type {
            Some(f) => f.duplicate(),
            None => {
                return Err(Failure::Unsupported);
            },
        };
        match unify_checked(first, element_type) {
            Ok(()) => {},
            Err(e) => {
                return Err(e);
            },
        }
        let ghost r0 = r@;
        r.push(t);
        proof {
            assert(r@.drop_last() =~= r0);
            lemma_tagged_seq_view(r0);
            lemma_tagged_seq_view(r@);
            match check_array_rest(
                tenv,
                variable_env@,
                expressions@.subrange(i + 1, expressions@.len() as int),
                ft,
            ) {
                Checked::Done(ts, v) => {
                    assert(tagged_seq_view(r@) + ts =~= tagged_seq_view(r0) + (seq![t@] + ts));
                },
                _ => {},
            }
        }
        i += 1;
    }
    proof {
        assert(expressions@.subrange(expressions@.len() as int, expressions@.len() as int)
            =~= Seq::<Box<Expression>>::empty());
        assert(tagged_seq_view(r@) + Seq::<TaggedV>::empty() =~= tagged_seq_view(r@));
    }
    Ok(r)
}

/// Unifies each argument's type with the type of its parameter under
/// `all_types`, pair by pair, stopping at the first failure.
fn unify_call_arguments(
    params: &Vec<Type>,
    args: &Vec<TaggedExpression>,
    all_types: &mut TypeEnv,
) -> (r: Result<(), Failure>)
    requires
        ordinary_map(old(all_types)@),
        ordinary_seq(tys_view(params@)),
        forall|j: int| 0 <= j < args@.len() ==> #[trigger] typed_ordinary(tagged_view(args@[j])),
    ensures
        *final(all_types) == *old(all_types),
        match unify_arguments(tys_view(params@), tagged_seq_view(args@), old(all_types)@) {
            None => r matches Err(Failure::Unsupported),
            Some(Err(m)) => r matches Err(Failure::Error(e)) && placeholder_error(e, m),
            Some(Ok(())) => r is Ok,
        },
{
    let ghost ps = tys_view(params@);
    let ghost targs = tagged_seq_view(args@);
    let ghost all = all_types@;
    proof {
        lemma_tys_view(params@);
        lemma_ordinary_seq(ps);
        lemma_tagged_seq_view(args@);
        assert(ps.subrange(0, ps.len() as int) =~= ps);
        assert(targs.subrange(0, targs.len() as int) =~= targs);
    }
    let n = if params.len() < args.len() {
        params.len()
    } else {
        args.len()
    };
    let mut i: usize = 0;
    while i < n
        invariant
            i <= n,
            n <= params@.len(),
            n <= args@.len(),
            n == params@.len() || n == args@.len(),
            ps == tys_view(params@),
            ps.len() == params@.len(),
            forall|j: int| 0 <= j < params@.len() ==> #[trigger] ps[j] == ty_view(params@[j]),
            forall|j: int| 0 <= j < ps.len() ==> #[trigger] ordinary(ps[j]),
            targs == tagged_seq_view(args@),
            targs.len() == args@.len(),
            forall|j: int| 0 <= j < targs.len() ==> #[trigger] targs[j] == tagged_view(args@[j]),
            forall|j: int| 0 <= j < args@.len() ==> #[trigger] typed_ordinary(tagged_view(args@[j])),
            all == all_types@,
            *all_types == *old(all_types),
            ordinary_map(all),
            unify_arguments(ps, targs, all) == unify_arguments(
                ps.subrange(i as int, ps.len() as int),
                targs.subrange(i as int, targs.len() as int),
                all,
            ),
        decreases n - i,
    {
        let ghost ps_i = ps.subrange(i as int, ps.len() as int);
        let ghost ts_i = targs.subrange(i as int, targs.len() as int);
        proof {
            assert(ps_i[0] == ps[i as int]);
            assert(ts_i[0] == targs[i as int]);
            assert(ps_i.drop_first() =~= ps.subrange(i + 1, ps.len() as int));
            assert(ts_i.drop_first() =~= targs.subrange(i + 1, targs.len() as int));
            assert(typed_ordinary(tagged_view(args@[i as int])));
        }
        let arg_type = match type_checked(&args[i]) {
            Ok(t) => t,
            Err(e) => return Err(e),
        };
        let param = substitute(params[i].duplicate(), all_types);
        proof {
            lemma_subst_ordinary(ps[i as int], all);
        }
        match unify_checked(arg_type, param) {
            Ok(()) => {},
            Err(e) => return Err(e),
        }
        i += 1;
    }
    proof {
        let ps_n = ps.subrange(n as int, ps.len() as int);
        let ts_n = targs.subrange(n as int, targs.len() as int);
        assert(ps_n.len() == 0 || ts_n.len() == 0);
    }
    Ok(())
}

/// Translates a call: the arguments' types must unify with the
/// parameters' types, with the type parameters bound to the given types,
/// and the call has the return type under the same bindings.
fn translate_function_call(
    type_env: &mut TypeEnv,
    variable_env: &mut VariableEnv,
    expression: &Expression,
) -> (r: Result<TaggedExpression, Failure>)
    requires
        ordinary_map(old(type_env)@),
        ordinary_map(old(variable_env)@),
        expression is FunctionCall,
    ensures
        *final(type_env) == *old(type_env),
        agrees(r, check_expression(old(type_env)@, old(variable_env)@, *expression), final(variable_env)@),
        r matches Ok(x) ==> ordinary_map(final(variable_env)@) && typed_ordinary(x@),
    decreases expression, 0nat,
{
    let ghost venv = variable_env@;
    let (ident, generic_type_idents, args) = match expression {
        Expression::FunctionCall(f, g, a) => (f, g, a),
        _ => {
            return Err(Failure::Unsupported);
        },
    };
    let instantiated_generics = match translate_type_identifiers(type_env, generic_type_idents) {
        Ok(t) => t,
        Err(e) => return Err(e),
    };
    let function_type = match variable_env.get(&ident.value) {
        Some(t) => t.duplicate(),
        None => return Err(unknown_identifier(&ident.value)),
    };
    assert(ordinary(venv[ident.value@]));
    let tagged_argument_expressions = match translate_expressions(type_env, variable_env, args) {
        Ok(t) => t,
        Err(e) => return Err(e),
    };
    let ghost ftv = function_type@;
    proof {
        lemma_expand_ordinary(ftv);
    }
    let expanded = expand(function_type);
    let (generics, func_type_constructor) = match expanded {
        Type::PolymorphicType(g, f) => (g, f),
        _ => return Err(Failure::Unsupported),
    };
    let ghost inner_v = ty_view(*func_type_constructor);
    assert(ftv == TypeV::Polymorphic(names_view(generics@), Box::new(inner_v)));
    assert(ordinary(inner_v));
    let types = match *func_type_constructor {
        Type::Apply(_, ts) => ts,
        _ => return Err(Failure::Unsupported),
    };
    let ghost all_v = tys_view(types@);
    proof {
        assert(ordinary_seq(all_v));
        lemma_tys_view(types@);
        lemma_ordinary_seq(all_v);
    }
    let mut types = types;
    if types.len() == 0 {
        return Err(Failure::Unsupported);
    }
    let return_type = match types.pop() {
        Some(t) => t,
        None => return Err(Failure::Unsupported),
    };
    proof {
        lemma_tys_view(types@);
        assert(tys_view(types@) =~= all_v.drop_last());
        assert(return_type@ == all_v.last());
        assert(ordinary(all_v[all_v.len() - 1]));
        lemma_ordinary_seq(all_v.drop_last());
        lemma_ordinary_seq(tys_view(instantiated_generics@));
    }
    let mut all_types = type_env.duplicate();
    extend_with_zip(&mut all_types, &generics, &instantiated_generics);
    match unify_call_arguments(&types, &tagged_argument_expressions, &mut all_types) {
        Ok(()) => {},
        Err(e) => return Err(e),
    }
    proof {
        lemma_subst_ordinary(all_v.last(), all_types@);
        lemma_tagged_seq_view(tagged_argument_expressions@);
    }
    let function_return_type = substitute(return_type, &mut all_types);
    Ok(TaggedExpression::FunctionCall(
        copy_name(ident),
        tagged_argument_expressions,
        Box::new(function_return_type),
    ))
}

/// `find_field` finds the first position whose name matches, counted from
/// any point before which no name matches.
proof fn lemma_find_field(params: Seq<(Identifier, Box<Expression>)>, name: Seq<char>, i: int)
    requires
        0 <= i <= params.len(),
        forall|k: int| 0 <= k < i ==> (#[trigger] params[k]).0@ != name,
    ensures
        find_field(params, name) == match find_field(params.subrange(i, params.len() as int), name) {
            Some(j) => Some(j + i),
            None => None,
        },
    decreases i,
{
    if i == 0 {
        assert(params.subrange(0, params.len() as int) =~= params);
        match find_field(params, name) {
            Some(j) => {},
            None => {},
        }
    } else {
        lemma_find_field(params, name, i - 1);
        let prev = params.subrange(i - 1, params.len() as int);
        assert(prev[0] == params[i - 1]);
        assert(prev.drop_first() =~= params.subrange(i, params.len() as int));
    }
}

/// The position of the first field expression given for `name`.
fn find_field_index(params: &Vec<(Identifier, Box<Expression>)>, name: &Identifier) -> (r: Option<usize>)
    ensures
        r matches Some(k) ==> k < params@.len() && find_field(params@, name@) == Some(k as int),
        r is None ==> find_field(params@, name@) is None,
{
    let mut i: usize = 0;
    while i < params.len()
        invariant
            i <= params.len(),
            forall|k: int| 0 <= k < i ==> (#[trigger] params@[k]).0@ != name@,
        decreases params.len() - i,
    {
        if params[i].0 == *name {
            proof {
                lemma_find_field(params@, name@, i as int);
                assert(params@.subrange(i as int, params@.len() as int)[0] == params@[i as int]);
            }
            return Some(i);
        }
        i += 1;
    }
    proof {
        lemma_find_field(params@, name@, i as int);
    }
    None
}

/// Translates, for each field of the record in order, the first
/// expression given for it, whose type must unify with the field's type
/// under `all_types`; gives the tagged fields and their types.
fn translate_fields(
    type_env: &mut TypeEnv,
    variable_env: &mut VariableEnv,
    fields: &Vec<(Identifier, Type)>,
    params: &Vec<(Identifier, Box<Expression>)>,
    all_types: &mut TypeEnv,
) -> (r: Result<(Vec<(Identifier, Box<TaggedExpression>)>, Vec<(Identifier, Type)>), Failure>)
    requires
        ordinary_map(old(type_env)@),
        ordinary_map(old(variable_env)@),
        ordinary_map(old(all_types)@),
        ordinary_fields(fields_view(fields@)),
    ensures
        *final(type_env) == *old(type_env),
        *final(all_types) == *old(all_types),
        match check_fields(
            old(type_env)@,
            old(variable_env)@,
            fields_view(fields@),
            params@,
            old(all_types)@,
        ) {
            Checked::Done(t, v) => r matches Ok((x, ts)) && tagged_fields_view(x@) == t
                && fields_view(ts@) == field_types(t) && final(variable_env)@ == v,
            Checked::Fail(m, v) => r matches Err(Failure::Error(e)) && placeholder_error(e, m)
                && final(variable_env)@ == v,
            Checked::Stuck => r matches Err(Failure::Unsupported),
        },
        r matches Ok((x, ts)) ==> ordinary_map(final(variable_env)@) && ordinary_fields(
            fields_view(ts@),
        ),
    decreases params, 0nat,
{
    let ghost tenv = type_env@;
    let ghost venv0 = variable_env@;
    let ghost fv = fields_view(fields@);
    let ghost all = all_types@;
    proof {
        lemma_fields_view(fields@);
        lemma_ordinary_fields(fv);
        assert(fv.subrange(0, fv.len() as int) =~= fv);
    }
    let mut tagged: Vec<(Identifier, Box<TaggedExpression>)> = Vec::new();
    let mut types: Vec<(Identifier, Type)> = Vec::new();
    proof {
        assert(tagged_fields_view(tagged@) =~= Seq::<(Seq<char>, TaggedV)>::empty());
        assert(fields_view(types@) =~= field_types(tagged_fields_view(tagged@)));
    }
    let mut i: usize = 0;
    while i < fields.len()
        invariant
            i <= fields.len(),
            fv == fields_view(fields@),
            fv.len() == fields@.len(),
            forall|j: int| 0 <= j < fields@.len() ==> #[trigger] fv[j] == (fields@[j].0@, ty_view(fields@[j].1)),
            forall|j: int| 0 <= j < fv.len() ==> #[trigger] ordinary(fv[j].1),
            tenv == type_env@,
            *type_env == *old(type_env),
            ordinary_map(tenv),
            ordinary_map(variable_env@),
            all == all_types@,
            *all_types == *old(all_types),
            ordinary_map(all),
            venv0 == old(variable_env)@,
            fields_view(types@) == field_types(tagged_fields_view(tagged@)),
            ordinary_fields(fields_view(types@)),
            check_fields(tenv, venv0, fv, params@, all) == match check_fields(
                tenv,
                variable_env@,
                fv.subrange(i as int, fv.len() as int),
                params@,
                all,
            ) {
                Checked::Done(ts, v) => Checked::Done(tagged_fields_view(tagged@) + ts, v),
                other => other,
            },
        decreases fields.len() - i,
    {
        let ghost rest = fv.subrange(i as int, fv.len() as int);
        proof {
            assert(rest[0] == fv[i as int]);
            assert(rest.drop_first() =~= fv.subrange(i + 1, fv.len() as int));
        }
        let j = match find_field_index(params, &fields[i].0) {
            Some(j) => j,
            None => return Err(Failure::Unsupported),
        };
        let t = match translate_expression(type_env, variable_env, &params[j].1) {
            Ok(t) => t,
            Err(e) => return Err(e),
        };
        let et = match t.type_of() {
            Some(et) => et,
            None => return Err(Failure::Unsupported),
        };
        let param = substitute(fields[i].1.duplicate(), all_types);
        proof {
            lemma_subst_ordinary(fv[i as int].1, all);
        }
        let et_copy = et.duplicate();
        match unify_checked(et, param) {
            Ok(()) => {},
            Err(e) => return Err(e),
        }
        let ghost tagged0 = tagged@;
        let ghost types0 = types@;
        tagged.push((fields[i].0.clone(), Box::new(t)));
        types.push((fields[i].0.clone(), et_copy));
        proof {
            assert(tagged@.drop_last() =~= tagged0);
            assert(types@.drop_last() =~= types0);
            lemma_tagged_fields_view(tagged0);
            lemma_tagged_fields_view(tagged@);
            lemma_fields_view(types0);
            lemma_fields_view(types@);
            assert(fields_view(types@) =~= field_types(tagged_fields_view(tagged@)));
            lemma_ordinary_fields(fields_view(types0));
            lemma_ordinary_fields(fields_view(types@));
            match check_fields(
                tenv,
                variable_env@,
                fv.subrange(i + 1, fv.len() as int),
                params@,
                all,
            ) {
                Checked::Done(ts, v) => {
                    assert(tagged_fields_view(tagged@) + ts =~= tagged_fields_view(tagged0) + (
                    seq![(fv[i as int].0, t@)] + ts));
                },
                _ => {},
            }
        }
        i += 1;
    }
    proof {
        assert(fv.subrange(fv.len() as int, fv.len() as int) =~= Seq::<(Seq<char>, TypeV)>::empty());
        assert(tagged_fields_view(tagged@) + Seq::<(Seq<char>, TaggedV)>::empty() =~= tagged_fields_view(
            tagged@,
        ));
    }
    Ok((tagged, types))
}

/// Translates a structure instantiation: each field of the record gets the
/// first expression given for it, whose type must unify with the field's
/// type with the type parameters bound to the given types.
fn translate_struct_instantiation(
    type_env: &mut TypeEnv,
    variable_env: &mut VariableEnv,
    expression: &Expression,
) -> (r: Result<TaggedExpression, Failure>)
    requires
        ordinary_map(old(type_env)@),
        ordinary_map(old(variable_env)@),
        expression is StructInstantiation,
    ensures
        *final(type_env) == *old(type_env),
        agrees(r, check_expression(old(type_env)@, old(variable_env)@, *expression), final(variable_env)@),
        r matches Ok(x) ==> ordinary_map(final(variable_env)@) && typed_ordinary(x@),
    decreases expression, 0nat,
{
    let ghost venv = variable_env@;
    let (identifier, maybe_generic_args, field_params) = match expression {
        Expression::StructInstantiation(i, g, f) => (i, g, f),
        _ => {
            return Err(Failure::Unsupported);
        },
    };
    let generic_args = match maybe_generic_args {
        Some(args) => match translate_type_identifiers(type_env, args) {
            Ok(t) => t,
            Err(e) => return Err(e),
        },
        None => {
            let v: Vec<Type> = Vec::new();
            proof {
                assert(tys_view(v@) =~= Seq::<TypeV>::empty());
            }
            v
        },
    };
    proof {
        lemma_ordinary_seq(tys_view(generic_args@));
        lemma_tys_view(generic_args@);
    }
    let struct_type = match variable_env.get(&identifier.value) {
        Some(t) => t.duplicate(),
        None => return Err(unknown_identifier(&identifier.value)),
    };
    match type_env.get(&identifier.value) {
        Some(_) => {},
        None => return Err(Failure::Unsupported),
    }
    assert(ordinary(venv[identifier.value@]));
    let ghost stv = struct_type@;
    proof {
        lemma_expand_ordinary(stv);
    }
    let expanded = expand(struct_type);
    let (generics, record_type_constructor) = match expanded {
        Type::PolymorphicType(g, r) => (g, r),
        _ => return Err(Failure::Unsupported),
    };
    let ghost record_v = ty_view(*record_type_constructor);
    assert(stv == TypeV::Polymorphic(names_view(generics@), Box::new(record_v)));
    assert(ordinary(record_v));
    let (constructor, record_args) = match *record_type_constructor {
        Type::Apply(c, a) => (c, a),
        _ => return Err(Failure::Unsupported),
    };
    assert(record_v == TypeV::Apply(tc_view(constructor), tys_view(record_args@)));
    let fields = match constructor {
        TypeConstructor::Record(fields) => fields,
        _ => return Err(Failure::Unsupported),
    };
    assert(tc_view(TypeConstructor::Record(fields)) == ConstructorV::Record(fields_view(fields@)));
    assert(ordinary_constructor(ConstructorV::Record(fields_view(fields@))));
    let mut all_types = type_env.duplicate();
    extend_with_zip(&mut all_types, &generics, &generic_args);
    let (tagged_field_params, type_fields) = match translate_fields(
        type_env,
        variable_env,
        &fields,
        field_params,
        &mut all_types,
    ) {
        Ok(x) => x,
        Err(e) => return Err(e),
    };
    let ghost tfv = fields_view(type_fields@);
    let c = TypeConstructor::Record(type_fields);
    assert(c@ == ConstructorV::Record(tfv));
    let struct_type = simple_type(c);
    proof {
        assert(ordinary_constructor(ConstructorV::Record(tfv)));
        assert(ordinary_seq(Seq::<TypeV>::empty()));
    }
    Ok(TaggedExpression::StructInstantiation(Box::new(struct_type), tagged_field_params))
}

/// Negating a `Float` is well typed and gives a `Float`, and negating a
/// `Bool` with `!` is well typed and gives a `Bool`: for any expression
/// whose check gives one of these types, checking the operator applied to
/// it succeeds, with the variables the operand leaves.
pub proof fn lemma_unary_operands(tenv: TypeMap, venv: TypeMap, e: Expression)
    ensures
        match check_expression(tenv, venv, e) {
            Checked::Done(ta, v1) => (tagged_type(ta) == Some(simple(ConstructorV::Float))
                ==> check_expression(tenv, venv, Expression::Unary(Unary::Negate, Box::new(e)))
                == Checked::Done(
                TaggedV::Unary(Unary::Negate, Box::new(ta), simple(ConstructorV::Float)),
                v1,
            )) && (tagged_type(ta) == Some(simple(ConstructorV::Bool)) ==> check_expression(
                tenv,
                venv,
                Expression::Unary(Unary::Not, Box::new(e)),
            ) == Checked::Done(
                TaggedV::Unary(Unary::Not, Box::new(ta), simple(ConstructorV::Bool)),
                v1,
            )),
            _ => true,
        },
{
    crate::roxc::semant::unification::lemma_function_free_seq(Seq::<TypeV>::empty());
    crate::roxc::semant::unification::lemma_unify_reflexive(simple(ConstructorV::Float));
    crate::roxc::semant::unification::lemma_unify_reflexive(simple(ConstructorV::Bool));
}

} // verus!
