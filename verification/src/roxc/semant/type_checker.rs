//! This module, unsurprisingly, performs Rox's type checking.
//! At a very high level, this consists of a two core functions: `substitute` and `unify`.
//!
//! ## Substitution
//!
//! Substitution refers to the substitution of formal type parameters with concrete types
//! in polymorphic type constructors.
//!
//! ## Unify
//!
//! Once we've constructed all of our types, we now need to verify that those types create
//! valid programs.
//! To do this, we need to verify that all the application of our types are equal, or "unified."
use vstd::prelude::*;
use crate::roxc::errors::{placeholder_error, RoxError};
use crate::roxc::parser::syntax::{
    FunctionDeclaration, Param, Spanned, Statement, TypeName,
};
use crate::roxc::semant::checker_spec::{
    builtin_type_map, carry_step, carry_steps, check_block, check_expression, check_program,
    check_statement, insert_all, names_or_none, return_type_of, second_of, type_of_name,
    types_of_names, types_of_params, with_type_variables, Checked, Step, TypeMap,
};
use crate::roxc::semant::env::{Env, TypeEnv, VariableEnv};
use crate::roxc::semant::expressions::{lemma_simple_ordinary, translate_expression};
use crate::roxc::semant::tagged_syntax::{
    lemma_tagged_block_view, simple, simple_type, tagged_block_view, tagged_type,
    TaggedExpression, TaggedStatement, TaggedStatementV,
};
use crate::roxc::semant::types::{
    clone_names, fields_view, lemma_fields_view, lemma_tys_view, names_view, tc_view, ty_view,
    tys_view, ConstructorV, Identifier, Type, TypeConstructor, TypeV,
};
use crate::roxc::semant::unification::{
    lemma_ordinary_fields, lemma_ordinary_seq, lemma_unify_ordinary, mismatch_text, ordinary,
    ordinary_constructor, ordinary_fields, ordinary_map, ordinary_seq, unify, unify_outcome,
};
use crate::roxc::stack::Stack;

verus! {

broadcast use vstd::seq::group_seq_axioms, vstd::std_specs::vec::group_vec_axioms;

/// Why checking stopped: an error to report, or a construct that the
/// checker has no answer for.
#[derive(Clone, Debug)]
pub enum Failure {
    Error(RoxError),
    Unsupported,
}

/// A prefix of type names without an answer leaves the whole list without one.
proof fn lemma_types_of_names_prefix(tenv: TypeMap, s: Seq<Box<TypeName>>, k: int)
    requires
        0 <= k <= s.len(),
        types_of_names(tenv, s.take(k)) is None,
    ensures
        types_of_names(tenv, s) is None,
    decreases s.len() - k,
{
    if k < s.len() {
        assert(s.take(k + 1).drop_last() =~= s.take(k));
        lemma_types_of_names_prefix(tenv, s, k + 1);
    } else {
        assert(s.take(k) =~= s);
    }
}

/// Translates a written type name into the type it denotes.
pub fn translate_type_identifier(type_env: &mut TypeEnv, ty: &TypeName) -> (r: Result<Type, Failure>)
    ensures
        *final(type_env) == *old(type_env),
        match type_of_name(old(type_env)@, *ty) {
            Some(t) => r matches Ok(x) && x@ == t,
            None => r matches Err(Failure::Unsupported),
        },
        ordinary_map(old(type_env)@) ==> (r matches Ok(x) ==> ordinary(x@)),
    decreases ty, 0nat,
{
    match ty {
        TypeName::Type(identifier) => match type_env.get(&identifier.value) {
            Some(t) => {
                let r = t.duplicate();
                assert(type_of_name(old(type_env)@, *ty) == Some(r@));
                assert(ordinary_map(old(type_env)@) ==> ordinary(r@));
                Ok(r)
            },
            None => Err(Failure::Unsupported),
        },
        TypeName::ArrayType(type_) => {
            let inner_type = match translate_type_identifier(type_env, type_) {
                Ok(t) => t,
                Err(e) => {
                    return Err(e);
                },
            };
            let ghost it = inner_type@;
            let v: Vec<Type> = Vec::new();
            let c = TypeConstructor::Array(Box::new(inner_type));
            assert(c@ == ConstructorV::Array(Box::new(it)));
            let r = Type::Apply(c, v);
            assert(tys_view(v@) =~= Seq::<TypeV>::empty());
            assert(r@ == TypeV::Apply(ConstructorV::Array(Box::new(it)), Seq::empty()));
            assert(ordinary_map(old(type_env)@) ==> ordinary_constructor(ConstructorV::Array(Box::new(it))));
            assert(ordinary_seq(Seq::<TypeV>::empty()));
            Ok(r)
        },
        TypeName::GenericType(_, _) => Err(Failure::Unsupported),
        TypeName::Function(argument_types, return_type) => {
            let mut types = match translate_type_identifiers(type_env, argument_types) {
                Ok(t) => t,
                Err(e) => {
                    return Err(e);
                },
            };
            let ret = match translate_type_identifier(type_env, return_type) {
                Ok(t) => t,
                Err(e) => {
                    return Err(e);
                },
            };
            let ghost ts0 = types@;
            let ghost rv = ret@;
            types.push(ret);
            proof {
                assert(types@.drop_last() =~= ts0);
                lemma_tys_view(types@);
                lemma_tys_view(ts0);
                lemma_ordinary_seq(tys_view(ts0));
                lemma_ordinary_seq(tys_view(types@));
                assert(ordinary_constructor(ConstructorV::Arrow));
            }
            let ghost tv = tys_view(types@);
            assert(tv == tys_view(ts0).push(rv));
            assert(crate::roxc::semant::types::tc_view(TypeConstructor::Arrow) == ConstructorV::Arrow);
            let r = Type::Apply(TypeConstructor::Arrow, types);
            assert(r@ == TypeV::Apply(ConstructorV::Arrow, tv));
            assert(types_of_names(old(type_env)@, argument_types@) == Some(tys_view(ts0)));
            assert(type_of_name(old(type_env)@, **return_type) == Some(rv));
            assert(type_of_name(old(type_env)@, *ty) == Some(r@));
            assert(ordinary_map(old(type_env)@) ==> ordinary(r@));
            Ok(r)
        },
    }
}

/// Translates each type name of a list.
pub fn translate_type_identifiers(type_env: &mut TypeEnv, names: &Vec<Box<TypeName>>) -> (r: Result<
    Vec<Type>,
    Failure,
>)
    ensures
        *final(type_env) == *old(type_env),
        match types_of_names(old(type_env)@, names@) {
            Some(ts) => r matches Ok(x) && tys_view(x@) == ts,
            None => r matches Err(Failure::Unsupported),
        },
        ordinary_map(old(type_env)@) ==> (r matches Ok(x) ==> ordinary_seq(tys_view(x@))),
    decreases names, 0nat,
{
    let ghost tenv = type_env@;
    let mut r: Vec<Type> = Vec::new();
    let mut i: usize = 0;
    proof {
        assert(names@.take(0) =~= Seq::<Box<TypeName>>::empty());
        assert(tys_view(r@) =~= Seq::<TypeV>::empty());
    }
    while i < names.len()
        invariant
            i <= names.len(),
            tenv == type_env@,
            *type_env == *old(type_env),
            types_of_names(tenv, names@.take(i as int)) == Some(tys_view(r@)),
            ordinary_map(tenv) ==> ordinary_seq(tys_view(r@)),
        decreases names.len() - i,
    {
        proof {
            assert(names@.take(i + 1).drop_last() =~= names@.take(i as int));
            assert(names@.take(i + 1).last() == names@[i as int]);
        }
        let t = match translate_type_identifier(type_env, &names[i]) {
            Ok(t) => t,
            Err(e) => {
                proof {
                    lemma_types_of_names_prefix(tenv, names@, i + 1);
                }
                return Err(e);
            },
        };
        let ghost r0 = r@;
        r.push(t);
        proof {
            assert(r@.drop_last() =~= r0);
            lemma_tys_view(r0);
            lemma_tys_view(r@);
            lemma_ordinary_seq(tys_view(r0));
            lemma_ordinary_seq(tys_view(r@));
        }
        i += 1;
    }
    assert(names@.take(names.len() as int) =~= names@);
    Ok(r)
}

/// Whether an executable outcome of a statement is the one the model
/// gives, with the type names and the variables known afterwards.
pub open spec fn agrees_step<T: View>(
    r: Result<T, Failure>,
    c: Step<T::V>,
    tenv: TypeMap,
    venv: TypeMap,
) -> bool {
    match c {
        Step::Done(t, t1, v1) => r matches Ok(x) && x@ == t && tenv == t1 && venv == v1,
        Step::Fail(m) => r matches Err(Failure::Error(e)) && placeholder_error(e, m),
        Step::Stuck => r matches Err(Failure::Unsupported),
    }
}

/// A prefix of parameters without an answer leaves the whole list without one.
proof fn lemma_types_of_params_prefix(tenv: TypeMap, s: Seq<Param>, k: int)
    requires
        0 <= k <= s.len(),
        types_of_params(tenv, s.take(k)) is None,
    ensures
        types_of_params(tenv, s) is None,
    decreases s.len() - k,
{
    if k < s.len() {
        assert(s.take(k + 1).drop_last() =~= s.take(k));
        lemma_types_of_params_prefix(tenv, s, k + 1);
    } else {
        assert(s.take(k) =~= s);
    }
}

/// The type of a declared return type, or of `Void` where none is written.
fn translate_return_type(type_env: &mut TypeEnv, ret: &Option<Box<TypeName>>) -> (r: Result<Type, Failure>)
    requires
        ordinary_map(old(type_env)@),
    ensures
        *final(type_env) == *old(type_env),
        match return_type_of(old(type_env)@, *ret) {
            Some(t) => r matches Ok(x) && x@ == t && ordinary(t),
            None => r matches Err(Failure::Unsupported),
        },
{
    match ret {
        Some(tn) => translate_type_identifier(type_env, tn),
        None => {
            let void_name = TypeName::Type(Spanned::dummy_span("Void".to_owned()));
            translate_type_identifier(type_env, &void_name)
        },
    }
}

/// The type names with each formal type parameter bound to its own
/// variable.
fn bind_type_variables(type_env: &TypeEnv, formals: &Option<Vec<Identifier>>) -> (r: TypeEnv)
    requires
        ordinary_map(type_env@),
    ensures
        r@ == with_type_variables(type_env@, names_or_none(*formals)),
        ordinary_map(r@),
{
    let mut local = type_env.duplicate();
    match formals {
        Some(fs) => {
            let ghost ns = names_view(fs@);
            let mut i: usize = 0;
            proof {
                assert(ns.take(0) =~= Seq::<Seq<char>>::empty());
            }
            while i < fs.len()
                invariant
                    i <= fs.len(),
                    ns == names_view(fs@),
                    local@ == with_type_variables(type_env@, ns.take(i as int)),
                    ordinary_map(local@),
                decreases fs.len() - i,
            {
                proof {
                    assert(ns.take(i + 1).drop_last() =~= ns.take(i as int));
                    assert(ns.take(i + 1).last() == fs@[i as int]@);
                }
                local.insert(fs[i].clone(), Type::Variable(fs[i].clone()));
                i += 1;
            }
            proof {
                assert(ns.take(fs.len() as int) =~= ns);
            }
        },
        None => {},
    }
    local
}

/// Translates the type of each parameter, keeping its name.
fn translate_params(type_env: &mut TypeEnv, params: &Vec<Param>) -> (r: Result<Vec<(Identifier, Type)>, Failure>)
    requires
        ordinary_map(old(type_env)@),
    ensures
        *final(type_env) == *old(type_env),
        match types_of_params(old(type_env)@, params@) {
            Some(ps) => r matches Ok(x) && fields_view(x@) == ps && ordinary_fields(ps),
            None => r matches Err(Failure::Unsupported),
        },
{
    let ghost tenv = type_env@;
    let mut r: Vec<(Identifier, Type)> = Vec::new();
    let mut i: usize = 0;
    proof {
        assert(params@.take(0) =~= Seq::<Param>::empty());
        assert(fields_view(r@) =~= Seq::<(Seq<char>, TypeV)>::empty());
    }
    while i < params.len()
        invariant
            i <= params.len(),
            tenv == type_env@,
            *type_env == *old(type_env),
            ordinary_map(tenv),
            types_of_params(tenv, params@.take(i as int)) == Some(fields_view(r@)),
            ordinary_fields(fields_view(r@)),
        decreases params.len() - i,
    {
        proof {
            assert(params@.take(i + 1).drop_last() =~= params@.take(i as int));
            assert(params@.take(i + 1).last() == params@[i as int]);
        }
        let t = match translate_type_identifier(type_env, &params[i].1) {
            Ok(t) => t,
            Err(e) => {
                proof {
                    lemma_types_of_params_prefix(tenv, params@, i + 1);
                }
                return Err(e);
            },
        };
        let ghost r0 = r@;
        let ghost tv = t@;
        r.push((params[i].0.clone(), t));
        proof {
            assert(r@.drop_last() =~= r0);
            assert(fields_view(r@) == fields_view(r0).push((params@[i as int].0@, tv)));
            assert(fields_view(r@).drop_last() =~= fields_view(r0));
            assert(fields_view(r@).last().1 == tv);
        }
        i += 1;
    }
    assert(params@.take(params.len() as int) =~= params@);
    Ok(r)
}

/// The types of a list of named types.
fn second_types(fields: &Vec<(Identifier, Type)>) -> (r: Vec<Type>)
    ensures
        tys_view(r@) == second_of(fields_view(fields@)),
{
    let ghost fv = fields_view(fields@);
    proof {
        lemma_fields_view(fields@);
    }
    let mut r: Vec<Type> = Vec::new();
    let mut i: usize = 0;
    while i < fields.len()
        invariant
            i <= fields.len(),
            fv == fields_view(fields@),
            fv.len() == fields@.len(),
            forall|j: int| 0 <= j < fields@.len() ==> #[trigger] fv[j] == (fields@[j].0@, ty_view(fields@[j].1)),
            r@.len() == i,
            forall|j: int| 0 <= j < i ==> #[trigger] ty_view(r@[j]) == fv[j].1,
        decreases fields.len() - i,
    {
        r.push(fields[i].1.duplicate());
        i += 1;
    }
    proof {
        lemma_tys_view(r@);
        assert(tys_view(r@) =~= second_of(fv));
    }
    r
}

/// The types of `ordinary` fields are `ordinary`.
proof fn lemma_second_ordinary(ps: Seq<(Seq<char>, TypeV)>)
    requires
        ordinary_fields(ps),
    ensures
        ordinary_seq(second_of(ps)),
{
    lemma_ordinary_fields(ps);
    lemma_ordinary_seq(second_of(ps));
    assert forall|i: int| 0 <= i < second_of(ps).len() implies #[trigger] ordinary(second_of(ps)[i]) by {
        assert(ordinary(ps[i].1));
    }
}

/// Binds each name to its type, in order.
fn bind_all(env: &mut Env, ps: &Vec<(Identifier, Type)>)
    requires
        ordinary_map(old(env)@),
        ordinary_fields(fields_view(ps@)),
    ensures
        final(env)@ == insert_all(old(env)@, fields_view(ps@)),
        ordinary_map(final(env)@),
{
    let ghost fv = fields_view(ps@);
    let ghost m0 = env@;
    proof {
        lemma_fields_view(ps@);
        lemma_ordinary_fields(fv);
        assert(fv.take(0) =~= Seq::<(Seq<char>, TypeV)>::empty());
    }
    let mut i: usize = 0;
    while i < ps.len()
        invariant
            i <= ps.len(),
            fv == fields_view(ps@),
            fv.len() == ps@.len(),
            forall|j: int| 0 <= j < ps@.len() ==> #[trigger] fv[j] == (ps@[j].0@, ty_view(ps@[j].1)),
            forall|j: int| 0 <= j < fv.len() ==> #[trigger] ordinary(fv[j].1),
            env@ == insert_all(m0, fv.take(i as int)),
            ordinary_map(env@),
        decreases ps.len() - i,
    {
        proof {
            assert(fv.take(i + 1).drop_last() =~= fv.take(i as int));
            assert(fv.take(i + 1).last() == fv[i as int]);
            assert(ordinary(fv[i as int].1));
        }
        env.insert(ps[i].0.clone(), ps[i].1.duplicate());
        i += 1;
    }
    proof {
        assert(fv.take(ps.len() as int) =~= fv);
    }
}

/// Binding an `ordinary` type keeps every binding `ordinary`.
proof fn lemma_insert_ordinary(m: TypeMap, k: Seq<char>, v: TypeV)
    requires
        ordinary_map(m),
        ordinary(v),
    ensures
        ordinary_map(m.insert(k, v)),
{
    assert forall|x: Seq<char>| m.insert(k, v).contains_key(x) implies #[trigger] ordinary(m.insert(k, v)[x]) by {
        if x != k {
            assert(m.contains_key(x));
        }
    }
}

/// The type of a function with the given formal type parameters,
/// parameter types and return type is `ordinary` when they are.
proof fn lemma_function_type_ordinary(fs: Seq<Seq<char>>, ps: Seq<TypeV>, rt: TypeV)
    requires
        ordinary_seq(ps),
        ordinary(rt),
    ensures
        ordinary(TypeV::Polymorphic(fs, Box::new(TypeV::Apply(ConstructorV::Arrow, ps.push(rt))))),
{
    lemma_ordinary_seq(ps);
    lemma_ordinary_seq(ps.push(rt));
    assert forall|i: int| 0 <= i < ps.push(rt).len() implies #[trigger] ordinary(ps.push(rt)[i]) by {
        if i < ps.len() {
            assert(ps.push(rt)[i] == ps[i]);
        }
    }
    assert(ordinary_constructor(ConstructorV::Arrow));
    assert(ordinary(TypeV::Apply(ConstructorV::Arrow, ps.push(rt))));
}

/// Translates a statement into its tagged form.  Declarations bind their
/// names: a structure as a type and as a value, a function and its
/// parameters as variables.
pub fn translate_statement(
    type_env: &mut TypeEnv,
    variable_env: &mut VariableEnv,
    statement: &Statement,
) -> (r: Result<TaggedStatement, Failure>)
    requires
        ordinary_map(old(type_env)@),
        ordinary_map(old(variable_env)@),
    ensures
        agrees_step(r, check_statement(old(type_env)@, old(variable_env)@, *statement), final(type_env)@, final(variable_env)@),
        r is Ok ==> ordinary_map(final(type_env)@) && ordinary_map(final(variable_env)@),
    decreases statement, 1nat,
{
    match statement {
        Statement::ExternFunctionDeclaration(_, _, _) => translate_extern_declaration(type_env, variable_env, statement),
        Statement::StructDeclaration(_, _, _) => translate_struct_declaration(type_env, variable_env, statement),
        Statement::FunctionDeclaration(_, _, _, _, _) => translate_function_declaration(
            type_env,
            variable_env,
            statement,
        ),
        Statement::Expression(expression) => match translate_expression(type_env, variable_env, expression) {
            Ok(t) => Ok(TaggedStatement::Expression(t)),
            Err(e) => Err(e),
        },
        Statement::Return(None) => Ok(TaggedStatement::Return(None)),
        Statement::Return(Some(expression)) => match translate_expression(type_env, variable_env, expression) {
            Ok(t) => Ok(TaggedStatement::Return(Some(t))),
            Err(e) => Err(e),
        },
        Statement::IfElse(_, _, _) => translate_if_else(type_env, variable_env, statement),
    }
}

/// Translates the declaration of a function defined elsewhere: its name
/// is bound to its signature.
#[verifier::rlimit(40)]
fn translate_extern_declaration(
    type_env: &mut TypeEnv,
    variable_env: &mut VariableEnv,
    statement: &Statement,
) -> (r: Result<TaggedStatement, Failure>)
    requires
        ordinary_map(old(type_env)@),
        ordinary_map(old(variable_env)@),
        statement is ExternFunctionDeclaration,
    ensures
        agrees_step(r, check_statement(old(type_env)@, old(variable_env)@, *statement), final(type_env)@, final(variable_env)@),
        r is Ok ==> ordinary_map(final(type_env)@) && ordinary_map(final(variable_env)@),
{
    let (func_name, parameters, return_type_name) = match statement {
        Statement::ExternFunctionDeclaration(n, p, r) => (n, p, r),
        _ => {
            return Err(Failure::Unsupported);
        },
    };
    let function_decl_types = match translate_type_identifiers(type_env, parameters) {
        Ok(t) => t,
        Err(e) => return Err(e),
    };
    let return_type = match translate_return_type(type_env, return_type_name) {
        Ok(t) => t,
        Err(e) => return Err(e),
    };
    let ghost ts = tys_view(function_decl_types@);
    let ghost rt = return_type@;
    let mut parameter_types = crate::roxc::semant::types::duplicate_types(&function_decl_types);
    let ghost pt0 = parameter_types@;
    parameter_types.push(return_type.duplicate());
    proof {
        assert(parameter_types@.drop_last() =~= pt0);
        assert(tys_view(parameter_types@) == tys_view(pt0).push(rt));
    }
    let mut params: Vec<(Identifier, Type)> = Vec::new();
    let mut i: usize = 0;
    proof {
        lemma_tys_view(function_decl_types@);
    }
    while i < function_decl_types.len()
        invariant
            i <= function_decl_types.len(),
            ts == tys_view(function_decl_types@),
            ts.len() == function_decl_types@.len(),
            forall|j: int| 0 <= j < function_decl_types@.len() ==> #[trigger] ts[j] == ty_view(function_decl_types@[j]),
            params@.len() == i,
            forall|j: int| 0 <= j < i ==> (#[trigger] params@[j]).0@ == Seq::<char>::empty() && ty_view(params@[j].1) == ts[j],
        decreases function_decl_types.len() - i,
    {
        params.push((String::new(), function_decl_types[i].duplicate()));
        i += 1;
    }
    proof {
        lemma_fields_view(params@);
        assert(fields_view(params@) =~= Seq::new(ts.len(), |j: int| (Seq::<char>::empty(), ts[j])));
        let pv = tys_view(parameter_types@);
        lemma_tys_view(parameter_types@);
        assert(pv =~= ts.push(rt));
        lemma_ordinary_seq(ts);
        lemma_ordinary_seq(ts.push(rt));
        assert(ordinary_constructor(ConstructorV::Arrow));
    }
    proof {
        lemma_function_type_ordinary(Seq::empty(), ts, rt);
    }
    let no_formals: Vec<Identifier> = Vec::new();
    proof {
        assert(names_view(no_formals@) =~= Seq::<Seq<char>>::empty());
        assert(tc_view(TypeConstructor::Arrow) == ConstructorV::Arrow);
    }
    let ghost pv = tys_view(parameter_types@);
    let inner = Type::Apply(TypeConstructor::Arrow, parameter_types);
    assert(inner@ == TypeV::Apply(ConstructorV::Arrow, pv));
    let function_type = Type::PolymorphicType(no_formals, Box::new(inner));
    let ghost ftv = function_type@;
    assert(ftv == TypeV::Polymorphic(Seq::empty(), Box::new(TypeV::Apply(ConstructorV::Arrow, ts.push(rt)))));
    proof {
        lemma_insert_ordinary(variable_env@, func_name@, ftv);
    }
    variable_env.insert(func_name.clone(), function_type);
    Ok(TaggedStatement::ExternFunctionDeclaration(
        FunctionDeclaration { name: func_name.clone(), params, return_type },
    ))
}

/// Translates a structure declaration: its name is bound, as a type and
/// as a value, to the record of its fields, polymorphic over its formal
/// type parameters.
#[verifier::rlimit(40)]
fn translate_struct_declaration(
    type_env: &mut TypeEnv,
    variable_env: &mut VariableEnv,
    statement: &Statement,
) -> (r: Result<TaggedStatement, Failure>)
    requires
        ordinary_map(old(type_env)@),
        ordinary_map(old(variable_env)@),
        statement is StructDeclaration,
    ensures
        agrees_step(r, check_statement(old(type_env)@, old(variable_env)@, *statement), final(type_env)@, final(variable_env)@),
        r is Ok ==> ordinary_map(final(type_env)@) && ordinary_map(final(variable_env)@),
{
    let (struct_name, maybe_formal_arguments, fields) = match statement {
        Statement::StructDeclaration(n, f, fs) => (n, f, fs),
        _ => {
            return Err(Failure::Unsupported);
        },
    };
    let mut local_type_env = bind_type_variables(type_env, maybe_formal_arguments);
    let translated_fields = match translate_params(&mut local_type_env, fields) {
        Ok(t) => t,
        Err(e) => return Err(e),
    };
    let ghost tf = fields_view(translated_fields@);
    let field_types = second_types(&translated_fields);
    let formals = match maybe_formal_arguments {
        Some(fs) => clone_names(fs),
        None => Vec::new(),
    };
    proof {
        assert(names_view(formals@) =~= names_or_none(*maybe_formal_arguments));
        lemma_second_ordinary(tf);
        assert(ordinary_constructor(ConstructorV::Record(tf)));
    }
    let c = TypeConstructor::Record(translated_fields);
    assert(c@ == ConstructorV::Record(tf));
    let ghost fs = names_or_none(*maybe_formal_arguments);
    let ghost sv = tys_view(field_types@);
    let inner = Type::Apply(c, field_types);
    assert(inner@ == TypeV::Apply(ConstructorV::Record(tf), sv));
    let new_type = Type::PolymorphicType(formals, Box::new(inner));
    let ghost ntv = new_type@;
    assert(ntv == TypeV::Polymorphic(fs, Box::new(TypeV::Apply(ConstructorV::Record(tf), second_of(tf)))));
    proof {
        assert(ordinary(TypeV::Apply(ConstructorV::Record(tf), second_of(tf))));
        lemma_insert_ordinary(type_env@, struct_name@, ntv);
        lemma_insert_ordinary(variable_env@, struct_name@, ntv);
    }
    type_env.insert(struct_name.clone(), new_type.duplicate());
    variable_env.insert(struct_name.clone(), new_type);
    Ok(TaggedStatement::StructDeclaration)
}

/// Translates a function declaration: its parameters and its own name are
/// bound as variables, and its body is translated with its formal type
/// parameters bound to themselves.
#[verifier::rlimit(40)]
fn translate_function_declaration(
    type_env: &mut TypeEnv,
    variable_env: &mut VariableEnv,
    statement: &Statement,
) -> (r: Result<TaggedStatement, Failure>)
    requires
        ordinary_map(old(type_env)@),
        ordinary_map(old(variable_env)@),
        statement is FunctionDeclaration,
    ensures
        agrees_step(r, check_statement(old(type_env)@, old(variable_env)@, *statement), final(type_env)@, final(variable_env)@),
        r is Ok ==> ordinary_map(final(type_env)@) && ordinary_map(final(variable_env)@),
    decreases statement, 0nat,
{
    let (func_name, maybe_formal_arguments, parameters, return_type_name, func_body) = match statement {
        Statement::FunctionDeclaration(n, f, p, r, b) => (n, f, p, r, b),
        _ => {
            return Err(Failure::Unsupported);
        },
    };
    let mut local_type_env = bind_type_variables(type_env, maybe_formal_arguments);
    let params = match translate_params(&mut local_type_env, parameters) {
        Ok(t) => t,
        Err(e) => return Err(e),
    };
    let ghost pts = fields_view(params@);
    bind_all(variable_env, &params);
    let return_type = match translate_return_type(&mut local_type_env, return_type_name) {
        Ok(t) => t,
        Err(e) => return Err(e),
    };
    let ghost rt = return_type@;
    let mut parameter_types = second_types(&params);
    let ghost pt0 = parameter_types@;
    parameter_types.push(return_type.duplicate());
    proof {
        assert(parameter_types@.drop_last() =~= pt0);
        assert(tys_view(parameter_types@) == tys_view(pt0).push(rt));
    }
    let formals = match maybe_formal_arguments {
        Some(fs) => clone_names(fs),
        None => Vec::new(),
    };
    proof {
        assert(names_view(formals@) =~= names_or_none(*maybe_formal_arguments));
        lemma_second_ordinary(pts);
        lemma_tys_view(parameter_types@);
        assert(tys_view(parameter_types@) =~= second_of(pts).push(rt));
        lemma_ordinary_seq(second_of(pts));
        lemma_ordinary_seq(second_of(pts).push(rt));
        assert(ordinary_constructor(ConstructorV::Arrow));
        assert(tc_view(TypeConstructor::Arrow) == ConstructorV::Arrow);
    }
    let ghost fs = names_or_none(*maybe_formal_arguments);
    let ghost pv = tys_view(parameter_types@);
    let inner = Type::Apply(TypeConstructor::Arrow, parameter_types);
    assert(inner@ == TypeV::Apply(ConstructorV::Arrow, pv));
    let function_type = Type::PolymorphicType(formals, Box::new(inner));
    let ghost ftv = function_type@;
    assert(ftv == TypeV::Polymorphic(fs, Box::new(TypeV::Apply(ConstructorV::Arrow, second_of(pts).push(rt)))));
    proof {
        lemma_function_type_ordinary(fs, second_of(pts), rt);
        lemma_insert_ordinary(variable_env@, func_name@, ftv);
    }
    variable_env.insert(func_name.clone(), function_type);
    let tagged_statements = match translate_block(&mut local_type_env, variable_env, func_body) {
        Ok(t) => t,
        Err(e) => return Err(e),
    };
    Ok(TaggedStatement::FunctionDeclaration(
        FunctionDeclaration { name: func_name.clone(), params, return_type },
        tagged_statements,
    ))
}

/// Translates a conditional: the condition must be a `Bool`, and the
/// blocks are translated one after the other.
fn translate_if_else(
    type_env: &mut TypeEnv,
    variable_env: &mut VariableEnv,
    statement: &Statement,
) -> (r: Result<TaggedStatement, Failure>)
    requires
        ordinary_map(old(type_env)@),
        ordinary_map(old(variable_env)@),
        statement is IfElse,
    ensures
        agrees_step(r, check_statement(old(type_env)@, old(variable_env)@, *statement), final(type_env)@, final(variable_env)@),
        r is Ok ==> ordinary_map(final(type_env)@) && ordinary_map(final(variable_env)@),
    decreases statement, 0nat,
{
    let (if_expression, body, maybe_else_block) = match statement {
        Statement::IfElse(c, b, e) => (c, b, e),
        _ => {
            return Err(Failure::Unsupported);
        },
    };
    let tagged_if = match translate_expression(type_env, variable_env, if_expression) {
        Ok(t) => t,
        Err(e) => return Err(e),
    };
    let condition_type = match tagged_if.type_of() {
        Some(t) => t,
        None => return Err(Failure::Unsupported),
    };
    let bool_type = simple_type(TypeConstructor::Bool);
    proof {
        assert(tc_view(TypeConstructor::Bool) == ConstructorV::Bool);
        assert(ordinary_constructor(ConstructorV::Bool));
        assert(ordinary_seq(Seq::<TypeV>::empty()));
        lemma_unify_ordinary(condition_type@, bool_type@);
    }
    match unify(condition_type, bool_type) {
        Ok(()) => {},
        Err(e) => return Err(Failure::Error(e)),
    }
    let tagged_body = match translate_block(type_env, variable_env, body) {
        Ok(t) => t,
        Err(e) => return Err(e),
    };
    match maybe_else_block {
        Some(block) => {
            let tagged_else = match translate_block(type_env, variable_env, block) {
                Ok(t) => t,
                Err(e) => return Err(e),
            };
            Ok(TaggedStatement::IfElse(Box::new(tagged_if), tagged_body, Some(tagged_else)))
        },
        None => Ok(TaggedStatement::IfElse(Box::new(tagged_if), tagged_body, None)),
    }
}

/// Translates the statements in order, threading the type names and the
/// variables through.
pub fn translate_block(
    type_env: &mut TypeEnv,
    variable_env: &mut VariableEnv,
    statements: &Vec<Box<Statement>>,
) -> (r: Result<Vec<TaggedStatement>, Failure>)
    requires
        ordinary_map(old(type_env)@),
        ordinary_map(old(variable_env)@),
    ensures
        match check_block(old(type_env)@, old(variable_env)@, statements@) {
            Step::Done(t, t1, v1) => r matches Ok(x) && tagged_block_view(x@) == t
                && final(type_env)@ == t1 && final(variable_env)@ == v1,
            Step::Fail(m) => r matches Err(Failure::Error(e)) && placeholder_error(e, m),
            Step::Stuck => r matches Err(Failure::Unsupported),
        },
        r is Ok ==> ordinary_map(final(type_env)@) && ordinary_map(final(variable_env)@),
    decreases statements, 0nat,
{
    let ghost tenv0 = type_env@;
    let ghost venv0 = variable_env@;
    let ghost s = statements@;
    let mut r: Vec<TaggedStatement> = Vec::new();
    let mut i: usize = 0;
    proof {
        assert(s.subrange(0, s.len() as int) =~= s);
        assert(tagged_block_view(r@) =~= Seq::<TaggedStatementV>::empty());
    }
    while i < statements.len()
        invariant
            i <= statements.len(),
            s == statements@,
            tenv0 == old(type_env)@,
            venv0 == old(variable_env)@,
            ordinary_map(type_env@),
            ordinary_map(variable_env@),
            check_block(tenv0, venv0, s) == match check_block(
                type_env@,
                variable_env@,
                s.subrange(i as int, s.len() as int),
            ) {
                Step::Done(ts, t, v) => Step::Done(tagged_block_view(r@) + ts, t, v),
                other => other,
            },
        decreases statements.len() - i,
    {
        let ghost rest = s.subrange(i as int, s.len() as int);
        proof {
            assert(rest[0] == s[i as int]);
            assert(rest.subrange(1, rest.len() as int) =~= s.subrange(i + 1, s.len() as int));
        }
        let t = match translate_statement(type_env, variable_env, &statements[i]) {
            Ok(t) => t,
            Err(e) => {
                return Err(e);
            },
        };
        let ghost r0 = r@;
        r.push(t);
        proof {
            assert(r@.drop_last() =~= r0);
            match check_block(type_env@, variable_env@, s.subrange(i + 1, s.len() as int)) {
                Step::Done(ts, tt, vv) => {
                    assert(tagged_block_view(r@) + ts =~= tagged_block_view(r0) + (seq![t@] + ts));
                },
                _ => {},
            }
        }
        i += 1;
    }
    proof {
        assert(s.subrange(s.len() as int, s.len() as int) =~= Seq::<Box<Statement>>::empty());
        assert(tagged_block_view(r@) + Seq::<TaggedStatementV>::empty() =~= tagged_block_view(r@));
    }
    Ok(r)
}

/// The type names every program starts with, no variables, and a stack
/// of function tables holding one empty table.
pub fn get_builtin_types() -> (r: (TypeEnv, VariableEnv, Stack<Vec<(Identifier, FunctionDeclaration)>>))
    ensures
        r.0@ == builtin_type_map(),
        r.1@ == Map::<Seq<char>, TypeV>::empty(),
        r.2@.len() == 1,
        r.2@[0]@.len() == 0,
{
    let mut type_env = Env::new();
    let variable_env = Env::new();
    type_env.insert("Int".to_owned(), simple_type(TypeConstructor::Int));
    type_env.insert("Float".to_owned(), simple_type(TypeConstructor::Float));
    type_env.insert("String".to_owned(), simple_type(TypeConstructor::String));
    type_env.insert("Void".to_owned(), simple_type(TypeConstructor::Void));
    type_env.insert("Bool".to_owned(), simple_type(TypeConstructor::Bool));
    type_env.insert("Number".to_owned(), simple_type(TypeConstructor::Float));
    let mut function_stack: Stack<Vec<(Identifier, FunctionDeclaration)>> = Stack::new();
    function_stack.push(Vec::new());
    proof {
        assert(tc_view(TypeConstructor::Int) == ConstructorV::Int);
        assert(tc_view(TypeConstructor::Float) == ConstructorV::Float);
        assert(tc_view(TypeConstructor::String) == ConstructorV::Str);
        assert(tc_view(TypeConstructor::Void) == ConstructorV::Void);
        assert(tc_view(TypeConstructor::Bool) == ConstructorV::Bool);
    }
    (type_env, variable_env, function_stack)
}

/// The builtin type names are all `ordinary`.
proof fn lemma_builtins_ordinary()
    ensures
        ordinary_map(builtin_type_map()),
        ordinary_map(Map::<Seq<char>, TypeV>::empty()),
{
    lemma_simple_ordinary();
}

/// Type checks a whole program, starting from the builtin type names and
/// no variables.  `Unsupported` stands for the programs the checker has no
/// answer for.
pub fn check_statements(statements: &Vec<Box<Statement>>) -> (r: Result<Vec<TaggedStatement>, Failure>)
    ensures
        match check_program(statements@) {
            Step::Done(t, _, _) => r matches Ok(x) && tagged_block_view(x@) == t,
            Step::Fail(m) => r matches Err(Failure::Error(e)) && placeholder_error(e, m),
            Step::Stuck => r matches Err(Failure::Unsupported),
        },
{
    let (mut type_env, mut variable_env, _) = get_builtin_types();
    proof {
        lemma_builtins_ordinary();
    }
    translate_block(&mut type_env, &mut variable_env, statements)
}

/// Type checks a whole program, for the programs the checker has an
/// answer for: the tagged program, or the first type error.
pub fn analyse_program(statements: Vec<Box<Statement>>) -> (r: crate::roxc::errors::Result<Vec<TaggedStatement>>)
    requires
        !(check_program(statements@) is Stuck),
    ensures
        match check_program(statements@) {
            Step::Done(t, _, _) => r matches Ok(x) && tagged_block_view(x@) == t,
            Step::Fail(m) => r matches Err(e) && placeholder_error(e, m),
            Step::Stuck => false,
        },
{
    match check_statements(&statements) {
        Ok(t) => Ok(t),
        Err(Failure::Error(e)) => Err(e),
        Err(Failure::Unsupported) => {
            proof {
                assert(false);
            }
            vstd::pervasive::unreached()
        },
    }
}

} // verus!
