//! Unification and expansion of types.
use vstd::prelude::*;
use crate::roxc::semant::env::{zip_argument_types, zip_map};
use crate::roxc::semant::equality::constructor_eq;
use crate::roxc::semant::fuel::{least, lemma_least};
use crate::roxc::errors::RoxError;
use crate::roxc::semant::render::{constructor_text, type_text, write_constructor, write_type};
use crate::roxc::semant::substitution::{
    identity_map, lemma_seq_measures, size, size_seq, subst, subst_seq, substitute,
};
use crate::roxc::text::{debug_text, push_debug, push_str};
use crate::roxc::semant::types::{
    clone_names, lemma_tys_view, names_view, tc_view, ty_view, tys_view, ConstructorV, Identifier,
    Type, TypeConstructor, TypeV,
};

verus! {

broadcast use vstd::seq::group_seq_axioms, vstd::std_specs::vec::group_vec_axioms;

/// The substitution that renames each name of `from` to the variable of the
/// name at the same position of `to`.
pub open spec fn rename_map(from: Seq<Seq<char>>, to: Seq<Seq<char>>) -> Map<Seq<char>, TypeV> {
    zip_map(from, to.map_values(|p: Seq<char>| TypeV::Variable(p)))
}

/// Why two types do not unify: two different variable names, two
/// different constructors, or two types of different shapes.
pub enum MismatchV {
    Names(Seq<char>, Seq<char>),
    Constructors(ConstructorV, ConstructorV),
    Types(TypeV, TypeV),
}

/// The executable counterpart of `MismatchV`.
#[derive(Debug)]
pub enum Mismatch {
    Names(Identifier, Identifier),
    Constructors(TypeConstructor, TypeConstructor),
    Types(Type, Type),
}

impl View for Mismatch {
    type V = MismatchV;

    open spec fn view(&self) -> MismatchV {
        match self {
            Mismatch::Names(a, b) => MismatchV::Names(a@, b@),
            Mismatch::Constructors(a, b) => MismatchV::Constructors(a@, b@),
            Mismatch::Types(a, b) => MismatchV::Types(a@, b@),
        }
    }
}

/// Unification of two types, with at most `fuel` nested steps; `None`
/// when the fuel runs out.
///
/// Two variables unify when they have the same name.  Two polymorphic
/// types unify when their bodies do, once the second one's formal
/// parameters are renamed to the first one's.  An applied type-level
/// function is replaced by its body, its formal parameters bound to the
/// arguments of the other type.  Otherwise two applied types must have
/// equal constructors (two unique constructors are compared by the
/// constructors they wrap), and then unify when their arguments do, pair
/// by pair as far as the shorter list goes.
pub open spec fn unify_fuel(t1: TypeV, t2: TypeV, fuel: nat) -> Option<Result<(), MismatchV>>
    decreases fuel, 0nat,
{
    if fuel == 0 {
        None
    } else {
        let f = (fuel - 1) as nat;
        match (t1, t2) {
            (TypeV::Variable(a), TypeV::Variable(b)) => Some(
                if a == b {
                    Ok(())
                } else {
                    Err(MismatchV::Names(a, b))
                },
            ),
            (TypeV::Polymorphic(f1, b1), TypeV::Polymorphic(f2, b2)) => unify_fuel(
                *b1,
                subst(*b2, rename_map(f2, f1)),
                f,
            ),
            (TypeV::Apply(c1, a1), TypeV::Apply(c2, a2)) => match (c1, c2) {
                (ConstructorV::FunctionType(fs, b), _) => unify_fuel(
                    subst(*b, zip_map(fs, a2)),
                    t2,
                    f,
                ),
                (_, ConstructorV::FunctionType(fs, b)) => unify_fuel(
                    t1,
                    subst(*b, zip_map(fs, a1)),
                    f,
                ),
                (ConstructorV::Unique(x), ConstructorV::Unique(y)) => if x != y {
                    Some(Err(MismatchV::Constructors(*x, *y)))
                } else {
                    unify_args_fuel(a1, a2, f)
                },
                _ => if c1 != c2 {
                    Some(Err(MismatchV::Constructors(c1, c2)))
                } else {
                    unify_args_fuel(a1, a2, f)
                },
            },
            _ => Some(Err(MismatchV::Types(t1, t2))),
        }
    }
}

/// Unification of two argument lists, pair by pair as far as the shorter
/// goes, stopping at the first pair that does not unify.
pub open spec fn unify_args_fuel(s1: Seq<TypeV>, s2: Seq<TypeV>, fuel: nat) -> Option<
    Result<(), MismatchV>,
>
    decreases fuel, s1.len(),
{
    if s1.len() == 0 || s2.len() == 0 {
        Some(Ok(()))
    } else {
        match unify_fuel(s1[0], s2[0], fuel) {
            Some(Ok(())) => unify_args_fuel(s1.drop_first(), s2.drop_first(), fuel),
            other => other,
        }
    }
}

/// Unification of the two types ends.
pub open spec fn unify_terminates(t1: TypeV, t2: TypeV) -> bool {
    exists|f: nat| (#[trigger] unify_fuel(t1, t2, f)) is Some
}

/// The fuel amounts with which unification of the two types ends.
pub open spec fn unify_ends(t1: TypeV, t2: TypeV) -> spec_fn(nat) -> bool {
    |f: nat| unify_fuel(t1, t2, f) is Some
}

/// The least fuel with which unification of the two types ends.
pub open spec fn unify_need(t1: TypeV, t2: TypeV) -> nat {
    least(unify_ends(t1, t2))
}

/// The outcome of unifying the two types, where it ends.
pub open spec fn unify_outcome(t1: TypeV, t2: TypeV) -> Result<(), MismatchV> {
    unify_fuel(t1, t2, unify_need(t1, t2)).unwrap()
}

/// More fuel does not change an outcome that was reached.
pub proof fn lemma_unify_mono(t1: TypeV, t2: TypeV, f: nat, g: nat)
    requires
        unify_fuel(t1, t2, f) is Some,
        f <= g,
    ensures
        unify_fuel(t1, t2, g) == unify_fuel(t1, t2, f),
    decreases f, 0nat,
{
    let f1 = (f - 1) as nat;
    let g1 = (g - 1) as nat;
    match (t1, t2) {
        (TypeV::Polymorphic(fa, b1), TypeV::Polymorphic(fb, b2)) => {
            lemma_unify_mono(*b1, subst(*b2, rename_map(fb, fa)), f1, g1);
        },
        (TypeV::Apply(c1, a1), TypeV::Apply(c2, a2)) => match (c1, c2) {
            (ConstructorV::FunctionType(fs, b), _) => {
                lemma_unify_mono(subst(*b, zip_map(fs, a2)), t2, f1, g1);
            },
            (_, ConstructorV::FunctionType(fs, b)) => {
                lemma_unify_mono(t1, subst(*b, zip_map(fs, a1)), f1, g1);
            },
            (ConstructorV::Unique(x), ConstructorV::Unique(y)) => {
                if x == y {
                    lemma_unify_args_mono(a1, a2, f1, g1);
                }
            },
            _ => {
                if c1 == c2 {
                    lemma_unify_args_mono(a1, a2, f1, g1);
                }
            },
        },
        _ => {},
    }
}

/// More fuel does not change an outcome that was reached.
pub proof fn lemma_unify_args_mono(s1: Seq<TypeV>, s2: Seq<TypeV>, f: nat, g: nat)
    requires
        unify_args_fuel(s1, s2, f) is Some,
        f <= g,
    ensures
        unify_args_fuel(s1, s2, g) == unify_args_fuel(s1, s2, f),
    decreases f, s1.len(),
{
    if s1.len() > 0 && s2.len() > 0 {
        lemma_unify_mono(s1[0], s2[0], f, g);
        match unify_fuel(s1[0], s2[0], f) {
            Some(Ok(())) => {
                lemma_unify_args_mono(s1.drop_first(), s2.drop_first(), f, g);
            },
            _ => {},
        }
    }
}

/// Where a step of unification with fuel `f` ends, the whole ends with the
/// same outcome, and needs less than `f + 1`.
pub proof fn lemma_unify_step(t1: TypeV, t2: TypeV, f: nat)
    requires
        unify_fuel(t1, t2, f) is Some,
    ensures
        unify_terminates(t1, t2),
        unify_need(t1, t2) <= f,
        unify_fuel(t1, t2, unify_need(t1, t2)) is Some,
        unify_outcome(t1, t2) == unify_fuel(t1, t2, f).unwrap(),
{
    let p = unify_ends(t1, t2);
    assert(p(f));
    lemma_least(p, f);
    lemma_unify_mono(t1, t2, unify_need(t1, t2), f);
}

/// The constructors of two applied types that differ, where neither is a
/// type-level function and they are not both unique: such types never
/// unify.
pub open spec fn different_constructors(t1: TypeV, t2: TypeV) -> Option<(ConstructorV, ConstructorV)> {
    match (t1, t2) {
        (TypeV::Apply(c1, _), TypeV::Apply(c2, _)) => if !(c1 is FunctionType) && !(c2 is FunctionType)
            && !(c1 is Unique && c2 is Unique) && c1 != c2 {
            Some((c1, c2))
        } else {
            None
        },
        _ => None,
    }
}

/// Unifies two types: `Ok` when they unify, else why they do not.
pub fn unify_types(type_one: Type, type_two: Type) -> (r: Result<(), Mismatch>)
    requires
        unify_terminates(type_one@, type_two@),
    ensures
        match r {
            Ok(()) => unify_outcome(type_one@, type_two@) is Ok,
            Err(m) => unify_outcome(type_one@, type_two@) == Err::<(), MismatchV>(m@),
        },
        match different_constructors(type_one@, type_two@) {
            Some((c1, c2)) => r matches Err(m) && m@ == MismatchV::Constructors(c1, c2),
            None => true,
        },
    decreases unify_need(type_one@, type_two@),
{
    proof {
        match (type_one@, type_two@) {
            (TypeV::Apply(c1, a1), TypeV::Apply(c2, a2)) => {
                if !(c1 is FunctionType) && !(c2 is FunctionType) && !(c1 is Unique && c2 is Unique)
                    && c1 != c2 {
                    lemma_unify_different_constructors(c1, a1, c2, a2);
                }
            },
            _ => {},
        }
    }
    let ghost t1v = type_one@;
    let ghost t2v = type_two@;
    let ghost need = unify_need(t1v, t2v);
    proof {
        let w = choose|f: nat| (#[trigger] unify_fuel(t1v, t2v, f)) is Some;
        lemma_unify_step(t1v, t2v, w);
        lemma_unify_step(t1v, t2v, need);
    }
    let ghost f1 = (need - 1) as nat;
    let t1c = type_one.duplicate();
    let t2c = type_two.duplicate();
    let (first_type_arguments, second_type_arguments) = match (type_one, type_two) {
        (Type::Variable(first), Type::Variable(second)) => {
            if first == second {
                return Ok(());
            } else {
                return Err(Mismatch::Names(first, second));
            }
        },
        (
            Type::PolymorphicType(original_formal_parameters, original_type),
            Type::PolymorphicType(other_format_parameters, other_type),
        ) => {
            let ghost fa = names_view(original_formal_parameters@);
            let ghost fb = names_view(other_format_parameters@);
            let mut variables: Vec<Type> = Vec::new();
            let mut i: usize = 0;
            while i < original_formal_parameters.len()
                invariant
                    i <= original_formal_parameters.len(),
                    variables@.len() == i,
                    forall|j: int|
                        0 <= j < i ==> #[trigger] variables@[j] == Type::Variable(
                            original_formal_parameters@[j],
                        ),
                decreases original_formal_parameters.len() - i,
            {
                variables.push(Type::Variable(original_formal_parameters[i].clone()));
                i += 1;
            }
            proof {
                lemma_tys_view(variables@);
                assert(tys_view(variables@) =~= fa.map_values(|p: Seq<char>| TypeV::Variable(p)));
            }
            let mut other_env = zip_argument_types(other_format_parameters, variables);
            let renamed = substitute(*other_type, &mut other_env);
            let ghost inner_two = renamed@;
            proof {
                assert(t1v == TypeV::Polymorphic(fa, Box::new(ty_view(*original_type))));
                lemma_unify_step(ty_view(*original_type), inner_two, f1);
            }
            return unify_types(*original_type, renamed);
        },
        (
            Type::Apply(first_type_constructor, first_type_arguments),
            Type::Apply(second_type_constructor, second_type_arguments),
        ) => {
            let ghost c1 = tc_view(first_type_constructor);
            let ghost c2 = tc_view(second_type_constructor);
            let ghost a1 = tys_view(first_type_arguments@);
            let ghost a2 = tys_view(second_type_arguments@);
            proof {
                assert(t1v == TypeV::Apply(c1, a1));
                assert(t2v == TypeV::Apply(c2, a2));
            }
            match (first_type_constructor, second_type_constructor) {
                (TypeConstructor::FunctionType(formal_types, type_), _) => {
                    let mut mapping = zip_argument_types(formal_types, second_type_arguments);
                    let applied = substitute(*type_, &mut mapping);
                    proof {
                        lemma_unify_step(applied@, t2v, f1);
                    }
                    return unify_types(applied, t2c);
                },
                (_, TypeConstructor::FunctionType(formal_types, type_)) => {
                    let mut mapping = zip_argument_types(formal_types, first_type_arguments);
                    let applied = substitute(*type_, &mut mapping);
                    proof {
                        lemma_unify_step(t1v, applied@, f1);
                    }
                    return unify_types(t1c, applied);
                },
                (TypeConstructor::Unique(first_constructor), TypeConstructor::Unique(second_constructor)) => {
                    if !constructor_eq(&first_constructor, &second_constructor) {
                        return Err(Mismatch::Constructors(*first_constructor, *second_constructor));
                    }
                    (first_type_arguments, second_type_arguments)
                },
                (first_constructor, second_constructor) => {
                    if !constructor_eq(&first_constructor, &second_constructor) {
                        return Err(Mismatch::Constructors(first_constructor, second_constructor));
                    }
                    (first_type_arguments, second_type_arguments)
                },
            }
        },
        _ => {
            return Err(Mismatch::Types(t1c, t2c));
        },
    };
    let ghost a1 = tys_view(first_type_arguments@);
    let ghost a2 = tys_view(second_type_arguments@);
    proof {
        lemma_tys_view(first_type_arguments@);
        lemma_tys_view(second_type_arguments@);
        assert(unify_fuel(t1v, t2v, need) == unify_args_fuel(a1, a2, f1));
        assert(a1.skip(0) =~= a1);
        assert(a2.skip(0) =~= a2);
    }
    let mut i: usize = 0;
    while i < first_type_arguments.len() && i < second_type_arguments.len()
        invariant
            i <= first_type_arguments.len(),
            i <= second_type_arguments.len(),
            a1 == tys_view(first_type_arguments@),
            a2 == tys_view(second_type_arguments@),
            a1.len() == first_type_arguments.len(),
            a2.len() == second_type_arguments.len(),
            forall|j: int|
                0 <= j < first_type_arguments.len() ==> #[trigger] a1[j] == ty_view(
                    first_type_arguments@[j],
                ),
            forall|j: int|
                0 <= j < second_type_arguments.len() ==> #[trigger] a2[j] == ty_view(
                    second_type_arguments@[j],
                ),
            unify_fuel(t1v, t2v, need) == unify_args_fuel(a1.skip(i as int), a2.skip(i as int), f1),
            unify_fuel(t1v, t2v, need) is Some,
            need == unify_need(t1v, t2v),
            t1v == type_one@,
            t2v == type_two@,
            f1 == need - 1,
            unify_outcome(t1v, t2v) == unify_fuel(t1v, t2v, need).unwrap(),
        decreases first_type_arguments.len() - i,
    {
        let x = first_type_arguments[i].duplicate();
        let y = second_type_arguments[i].duplicate();
        proof {
            assert(a1.skip(i as int)[0] == a1[i as int]);
            assert(a2.skip(i as int)[0] == a2[i as int]);
            lemma_unify_step(x@, y@, f1);
            assert(a1.skip(i as int).drop_first() =~= a1.skip(i + 1));
            assert(a2.skip(i as int).drop_first() =~= a2.skip(i + 1));
        }
        let result = unify_types(x, y);
        match result {
            Ok(()) => {},
            Err(m) => {
                return Err(m);
            },
        }
        i += 1;
    }
    Ok(())
}

/// The message of a failed unification.
pub open spec fn mismatch_text(m: MismatchV) -> Seq<char> {
    "Type mismatch: attempted to unify "@ + match m {
        MismatchV::Names(a, b) => debug_text(a) + " and "@ + debug_text(b),
        MismatchV::Constructors(a, b) => constructor_text(a) + " and "@ + constructor_text(b),
        MismatchV::Types(a, b) => type_text(a) + " and "@ + type_text(b),
    }
}

/// The text of a failed unification.
pub fn mismatch_message(m: &Mismatch) -> (r: String)
    ensures
        r@ == mismatch_text(m@),
{
    let mut out = String::new();
    push_str(&mut out, "Type mismatch: attempted to unify ");
    let ghost o = out@;
    match m {
        Mismatch::Names(a, b) => {
            push_debug(&mut out, a.as_str());
            push_str(&mut out, " and ");
            push_debug(&mut out, b.as_str());
        },
        Mismatch::Constructors(a, b) => {
            write_constructor(&mut out, a);
            push_str(&mut out, " and ");
            write_constructor(&mut out, b);
        },
        Mismatch::Types(a, b) => {
            write_type(&mut out, a);
            push_str(&mut out, " and ");
            write_type(&mut out, b);
        },
    }
    assert(out@ =~= mismatch_text(m@));
    out
}

/// Whether an error is the one that reports a failed unification.
pub open spec fn is_mismatch_error(e: RoxError, m: MismatchV) -> bool {
    crate::roxc::errors::placeholder_error(e, mismatch_text(m))
}

/// Unifies two types: `Ok` when they unify, else an error that says which
/// two names, constructors or types could not be unified.  Two applied
/// types with different constructors (neither a type-level function, and
/// not both unique) never unify.
pub fn unify(type_one: Type, type_two: Type) -> (r: crate::roxc::errors::Result<()>)
    requires
        unify_terminates(type_one@, type_two@),
    ensures
        r is Ok <==> unify_outcome(type_one@, type_two@) is Ok,
        r matches Err(e) ==> (unify_outcome(type_one@, type_two@) matches Err(m)
            && is_mismatch_error(e, m)),
        match different_constructors(type_one@, type_two@) {
            Some((c1, c2)) => r matches Err(e) && is_mismatch_error(e, MismatchV::Constructors(c1, c2)),
            None => true,
        },
{
    match unify_types(type_one, type_two) {
        Ok(()) => Ok(()),
        Err(m) => {
            let text = mismatch_message(&m);
            Err(RoxError::with_file_placeholder(text.as_str()))
        },
    }
}

/// Expansion of the head of a type, with at most `fuel` steps: an applied
/// type-level function is replaced by its body with the formal parameters
/// bound to the arguments, and a unique constructor by the constructor it
/// wraps, until the head is neither.
pub open spec fn expand_fuel(t: TypeV, fuel: nat) -> Option<TypeV>
    decreases fuel,
{
    if fuel == 0 {
        None
    } else {
        match t {
            TypeV::Apply(c, ts) => match c {
                ConstructorV::FunctionType(fs, b) => expand_fuel(
                    subst(*b, zip_map(fs, ts)),
                    (fuel - 1) as nat,
                ),
                ConstructorV::Unique(c2) => expand_fuel(TypeV::Apply(*c2, ts), (fuel - 1) as nat),
                _ => Some(t),
            },
            _ => Some(t),
        }
    }
}

/// The fuel amounts with which expansion of the type ends.
pub open spec fn expand_ends(t: TypeV) -> spec_fn(nat) -> bool {
    |f: nat| expand_fuel(t, f) is Some
}

/// Expansion of the type ends.
pub open spec fn expand_terminates(t: TypeV) -> bool {
    exists|f: nat| (#[trigger] expand_fuel(t, f)) is Some
}

/// The least fuel with which expansion of the type ends.
pub open spec fn expand_need(t: TypeV) -> nat {
    least(expand_ends(t))
}

/// The expansion of a type, where it ends.
pub open spec fn expansion(t: TypeV) -> TypeV {
    expand_fuel(t, expand_need(t)).unwrap()
}

/// More fuel does not change an expansion that was reached.
pub proof fn lemma_expand_mono(t: TypeV, f: nat, g: nat)
    requires
        expand_fuel(t, f) is Some,
        f <= g,
    ensures
        expand_fuel(t, g) == expand_fuel(t, f),
    decreases f,
{
    match t {
        TypeV::Apply(c, ts) => match c {
            ConstructorV::FunctionType(fs, b) => {
                lemma_expand_mono(subst(*b, zip_map(fs, ts)), (f - 1) as nat, (g - 1) as nat);
            },
            ConstructorV::Unique(c2) => {
                lemma_expand_mono(TypeV::Apply(*c2, ts), (f - 1) as nat, (g - 1) as nat);
            },
            _ => {},
        },
        _ => {},
    }
}

/// Where expansion with fuel `f` ends, it ends with the same result and
/// needs no more than `f`.
pub proof fn lemma_expand_step(t: TypeV, f: nat)
    requires
        expand_fuel(t, f) is Some,
    ensures
        expand_terminates(t),
        expand_need(t) <= f,
        expand_fuel(t, expand_need(t)) is Some,
        expansion(t) == expand_fuel(t, f).unwrap(),
{
    let p = expand_ends(t);
    assert(p(f));
    lemma_least(p, f);
    lemma_expand_mono(t, expand_need(t), f);
}

/// Expands the head of a type.
pub fn expand(t: Type) -> (r: Type)
    requires
        expand_terminates(t@),
    ensures
        r@ == expansion(t@),
    decreases expand_need(t@),
{
    let ghost tv = t@;
    proof {
        let w = choose|f: nat| (#[trigger] expand_fuel(tv, f)) is Some;
        lemma_expand_step(tv, w);
        lemma_expand_step(tv, expand_need(tv));
    }
    let ghost f1 = (expand_need(tv) - 1) as nat;
    let copy = t.duplicate();
    match t {
        Type::Apply(constructor, types) => {
            proof {
                assert(tv == TypeV::Apply(tc_view(constructor), tys_view(types@)));
            }
            match constructor {
                TypeConstructor::FunctionType(formal_arguments, type_) => {
                    let mut mapping = zip_argument_types(formal_arguments, types);
                    let applied = substitute(*type_, &mut mapping);
                    proof {
                        lemma_expand_step(applied@, f1);
                    }
                    expand(applied)
                },
                TypeConstructor::Unique(inner) => {
                    let unwrapped = Type::Apply(*inner, types);
                    proof {
                        lemma_expand_step(unwrapped@, f1);
                    }
                    expand(unwrapped)
                },
                _ => copy,
            }
        },
        _ => copy,
    }
}

/// A type in which no constructor is a type-level function or a unique
/// constructor, down to the types inside arrays and records: every type
/// the type checker builds is one.
pub open spec fn ordinary(t: TypeV) -> bool
    decreases t,
{
    match t {
        TypeV::Apply(c, args) => !(c is FunctionType) && !(c is Unique) && ordinary_constructor(c)
            && ordinary_seq(args),
        TypeV::Variable(_) => true,
        TypeV::Polymorphic(_, b) => ordinary(*b),
    }
}

/// A constructor that is `ordinary`, down to the types inside it.
pub open spec fn ordinary_constructor(c: ConstructorV) -> bool
    decreases c,
{
    match c {
        ConstructorV::FunctionType(_, _) => false,
        ConstructorV::Unique(_) => false,
        ConstructorV::Array(t) => ordinary(*t),
        ConstructorV::Record(fields) => ordinary_fields(fields),
        _ => true,
    }
}

/// The types of all the fields are `ordinary`.
pub open spec fn ordinary_fields(s: Seq<(Seq<char>, TypeV)>) -> bool
    decreases s,
{
    s.len() == 0 || (ordinary_fields(s.drop_last()) && ordinary(s.last().1))
}

/// `ordinary_fields` holds exactly when each field's type is `ordinary`.
pub proof fn lemma_ordinary_fields(s: Seq<(Seq<char>, TypeV)>)
    ensures
        ordinary_fields(s) <==> forall|i: int| 0 <= i < s.len() ==> #[trigger] ordinary(s[i].1),
    decreases s.len(),
{
    if s.len() > 0 {
        lemma_ordinary_fields(s.drop_last());
        if forall|i: int| 0 <= i < s.len() ==> #[trigger] ordinary(s[i].1) {
            assert forall|i: int| 0 <= i < s.drop_last().len() implies #[trigger] ordinary(
                s.drop_last()[i].1,
            ) by {
                assert(s.drop_last()[i] == s[i]);
            }
            assert(ordinary(s[s.len() - 1].1));
        }
        if ordinary_fields(s) {
            assert forall|i: int| 0 <= i < s.len() implies #[trigger] ordinary(s[i].1) by {
                if i < s.len() - 1 {
                    assert(s.drop_last()[i] == s[i]);
                }
            }
        }
    }
}

/// Every type of the sequence is `ordinary`.
pub open spec fn ordinary_seq(s: Seq<TypeV>) -> bool
    decreases s,
{
    s.len() == 0 || (ordinary_seq(s.drop_last()) && ordinary(s.last()))
}

/// `ordinary_seq` holds exactly when each element is `ordinary`.
pub proof fn lemma_ordinary_seq(s: Seq<TypeV>)
    ensures
        ordinary_seq(s) <==> forall|i: int| 0 <= i < s.len() ==> #[trigger] ordinary(s[i]),
    decreases s.len(),
{
    if s.len() > 0 {
        lemma_ordinary_seq(s.drop_last());
        if forall|i: int| 0 <= i < s.len() ==> #[trigger] ordinary(s[i]) {
            assert forall|i: int| 0 <= i < s.drop_last().len() implies #[trigger] ordinary(
                s.drop_last()[i],
            ) by {
                assert(s.drop_last()[i] == s[i]);
            }
            assert(ordinary(s[s.len() - 1]));
        }
        if ordinary_seq(s) {
            assert forall|i: int| 0 <= i < s.len() implies #[trigger] ordinary(s[i]) by {
                if i < s.len() - 1 {
                    assert(s.drop_last()[i] == s[i]);
                }
            }
        }
    }
}

/// All bindings of the map are `ordinary`.
pub open spec fn ordinary_map(m: Map<Seq<char>, TypeV>) -> bool {
    forall|k: Seq<char>| m.contains_key(k) ==> #[trigger] ordinary(m[k])
}

/// All bindings of the map are variables.
pub open spec fn renaming(m: Map<Seq<char>, TypeV>) -> bool {
    forall|k: Seq<char>| m.contains_key(k) ==> (#[trigger] m[k]) is Variable
}

/// A map that binds names to variables of the names binds only variables.
pub proof fn lemma_rename_map(from: Seq<Seq<char>>, to: Seq<Seq<char>>)
    ensures
        renaming(rename_map(from, to)),
        renaming(identity_map(from)),
{
    let vs = to.map_values(|p: Seq<char>| TypeV::Variable(p));
    let ws = from.map_values(|p: Seq<char>| TypeV::Variable(p));
    assert forall|k: Seq<char>| rename_map(from, to).contains_key(k) implies (#[trigger] rename_map(
        from,
        to,
    )[k]) is Variable by {
        crate::roxc::semant::substitution::lemma_zip_values(from, vs, k);
    }
    assert forall|k: Seq<char>| identity_map(from).contains_key(k) implies (#[trigger] identity_map(
        from,
    )[k]) is Variable by {
        crate::roxc::semant::substitution::lemma_zip_values(from, ws, k);
    }
}

/// Substituting `ordinary` bindings into an `ordinary` type gives an
/// `ordinary` type; substituting variables does not change its size.
pub proof fn lemma_subst_ordinary(t: TypeV, m: Map<Seq<char>, TypeV>)
    requires
        ordinary(t),
    ensures
        ordinary_map(m) ==> ordinary(subst(t, m)),
        renaming(m) ==> ordinary(subst(t, m)) && size(subst(t, m)) == size(t),
    decreases t,
{
    match t {
        TypeV::Apply(c, args) => {
            lemma_subst_seq_ordinary(args, m);
            match c {
                ConstructorV::FunctionType(_, _) => {},
                ConstructorV::Unique(_) => {},
                _ => {
                    assert(subst(t, m) == TypeV::Apply(c, subst_seq(args, m)));
                },
            }
        },
        TypeV::Variable(x) => {},
        TypeV::Polymorphic(fs, b) => {
            lemma_rename_map(fs, fs);
            lemma_subst_ordinary(*b, identity_map(fs));
        },
    }
}

/// `lemma_subst_ordinary` for each element of a sequence.
pub proof fn lemma_subst_seq_ordinary(s: Seq<TypeV>, m: Map<Seq<char>, TypeV>)
    requires
        ordinary_seq(s),
    ensures
        ordinary_map(m) ==> ordinary_seq(subst_seq(s, m)),
        renaming(m) ==> ordinary_seq(subst_seq(s, m)) && size_seq(subst_seq(s, m)) == size_seq(s),
    decreases s,
{
    if s.len() > 0 {
        lemma_subst_seq_ordinary(s.drop_last(), m);
        lemma_subst_ordinary(s.last(), m);
        assert(subst_seq(s, m).drop_last() =~= subst_seq(s.drop_last(), m));
    }
}

/// An `ordinary` type is its own expansion.
pub proof fn lemma_expand_ordinary(t: TypeV)
    requires
        ordinary(t),
    ensures
        expand_fuel(t, 1) == Some(t),
        expand_terminates(t),
        expansion(t) == t,
{
    match t {
        TypeV::Apply(c, args) => match c {
            ConstructorV::FunctionType(_, _) => {},
            ConstructorV::Unique(_) => {},
            _ => {},
        },
        _ => {},
    }
    assert(expand_fuel(t, 1) == Some(t));
    lemma_expand_step(t, 1);
}

/// Every type has a positive size.
pub proof fn lemma_size_positive(t: TypeV)
    ensures
        size(t) >= 1,
{
}

/// Unification of two `ordinary` types ends, within the sum of their sizes.
pub proof fn lemma_unify_ordinary(t1: TypeV, t2: TypeV)
    requires
        ordinary(t1),
        ordinary(t2),
    ensures
        unify_fuel(t1, t2, size(t1) + size(t2)) is Some,
        unify_terminates(t1, t2),
    decreases size(t1) + size(t2),
{
    let f = size(t1) + size(t2);
    let f1 = (f - 1) as nat;
    match (t1, t2) {
        (TypeV::Polymorphic(fa, b1), TypeV::Polymorphic(fb, b2)) => {
            let m = rename_map(fb, fa);
            lemma_rename_map(fb, fa);
            lemma_subst_ordinary(*b2, m);
            let b2r = subst(*b2, m);
            lemma_unify_ordinary(*b1, b2r);
            lemma_unify_mono(*b1, b2r, size(*b1) + size(b2r), f1);
        },
        (TypeV::Apply(c1, a1), TypeV::Apply(c2, a2)) => {
            lemma_ordinary_seq(a1);
            lemma_ordinary_seq(a2);
            lemma_seq_measures(a1);
            lemma_seq_measures(a2);
            assert forall|i: int| 0 <= i < a1.len() && 0 <= i < a2.len() implies (#[trigger] unify_fuel(
                a1[i],
                a2[i],
                f1,
            )) is Some by {
                lemma_unify_ordinary(a1[i], a2[i]);
                lemma_unify_mono(a1[i], a2[i], size(a1[i]) + size(a2[i]), f1);
            }
            lemma_unify_args_all(a1, a2, f1);
        },
        _ => {},
    }
    assert(unify_fuel(t1, t2, f) is Some);
}

/// Argument lists unify within `f` when each pair does.
pub proof fn lemma_unify_args_all(s1: Seq<TypeV>, s2: Seq<TypeV>, f: nat)
    requires
        forall|i: int|
            0 <= i < s1.len() && 0 <= i < s2.len() ==> (#[trigger] unify_fuel(s1[i], s2[i], f)) is Some,
    ensures
        unify_args_fuel(s1, s2, f) is Some,
    decreases s1.len(),
{
    if s1.len() > 0 && s2.len() > 0 {
        assert(unify_fuel(s1[0], s2[0], f) is Some);
        assert forall|i: int|
            0 <= i < s1.drop_first().len() && 0 <= i < s2.drop_first().len() implies (
            #[trigger] unify_fuel(s1.drop_first()[i], s2.drop_first()[i], f)) is Some by {
            assert(s1.drop_first()[i] == s1[i + 1]);
            assert(s2.drop_first()[i] == s2[i + 1]);
            assert(unify_fuel(s1[i + 1], s2[i + 1], f) is Some);
        }
        lemma_unify_args_all(s1.drop_first(), s2.drop_first(), f);
    }
}

/// A type in which no applied constructor is a type-level function, down
/// through the arguments and the bodies of polymorphic types.
pub open spec fn function_free(t: TypeV) -> bool
    decreases t,
{
    match t {
        TypeV::Apply(c, args) => !(c is FunctionType) && function_free_seq(args),
        TypeV::Variable(_) => true,
        TypeV::Polymorphic(_, b) => function_free(*b),
    }
}

/// Each type of the sequence is `function_free`.
pub open spec fn function_free_seq(s: Seq<TypeV>) -> bool
    decreases s,
{
    s.len() == 0 || (function_free_seq(s.drop_last()) && function_free(s.last()))
}

/// `function_free_seq` holds exactly when each element is `function_free`.
pub proof fn lemma_function_free_seq(s: Seq<TypeV>)
    ensures
        function_free_seq(s) <==> forall|i: int| 0 <= i < s.len() ==> #[trigger] function_free(s[i]),
    decreases s.len(),
{
    if s.len() > 0 {
        lemma_function_free_seq(s.drop_last());
        if forall|i: int| 0 <= i < s.len() ==> #[trigger] function_free(s[i]) {
            assert forall|i: int| 0 <= i < s.drop_last().len() implies #[trigger] function_free(
                s.drop_last()[i],
            ) by {
                assert(s.drop_last()[i] == s[i]);
            }
            assert(function_free(s[s.len() - 1]));
        }
        if function_free_seq(s) {
            assert forall|i: int| 0 <= i < s.len() implies #[trigger] function_free(s[i]) by {
                if i < s.len() - 1 {
                    assert(s.drop_last()[i] == s[i]);
                }
            }
        }
    }
}

/// Every `ordinary` type is `function_free`.
pub proof fn lemma_ordinary_function_free(t: TypeV)
    requires
        ordinary(t),
    ensures
        function_free(t),
    decreases t,
{
    match t {
        TypeV::Apply(c, args) => {
            lemma_ordinary_seq(args);
            assert forall|i: int| 0 <= i < args.len() implies #[trigger] function_free(args[i]) by {
                lemma_ordinary_function_free(args[i]);
            }
            lemma_function_free_seq(args);
        },
        TypeV::Polymorphic(_, b) => lemma_ordinary_function_free(*b),
        TypeV::Variable(_) => {},
    }
}

/// Renaming variables in a type without type-level functions keeps it
/// without them, and keeps its size.
pub proof fn lemma_subst_function_free(t: TypeV, m: Map<Seq<char>, TypeV>)
    requires
        function_free(t),
        renaming(m),
    ensures
        function_free(subst(t, m)),
        size(subst(t, m)) == size(t),
    decreases t,
{
    match t {
        TypeV::Apply(c, args) => {
            lemma_subst_seq_function_free(args, m);
            assert(subst(t, m) == TypeV::Apply(c, subst_seq(args, m)));
        },
        TypeV::Variable(x) => {},
        TypeV::Polymorphic(fs, b) => {
            lemma_rename_map(fs, fs);
            lemma_subst_function_free(*b, identity_map(fs));
        },
    }
}

/// `lemma_subst_function_free` for each element of a sequence.
pub proof fn lemma_subst_seq_function_free(s: Seq<TypeV>, m: Map<Seq<char>, TypeV>)
    requires
        function_free_seq(s),
        renaming(m),
    ensures
        function_free_seq(subst_seq(s, m)),
        size_seq(subst_seq(s, m)) == size_seq(s),
    decreases s,
{
    if s.len() > 0 {
        lemma_subst_seq_function_free(s.drop_last(), m);
        lemma_subst_function_free(s.last(), m);
        assert(subst_seq(s, m).drop_last() =~= subst_seq(s.drop_last(), m));
    }
}

/// Unification of two types without type-level functions ends, within the
/// sum of their sizes.
pub proof fn lemma_unify_function_free(t1: TypeV, t2: TypeV)
    requires
        function_free(t1),
        function_free(t2),
    ensures
        unify_fuel(t1, t2, size(t1) + size(t2)) is Some,
        unify_terminates(t1, t2),
    decreases size(t1) + size(t2),
{
    let f = size(t1) + size(t2);
    let f1 = (f - 1) as nat;
    match (t1, t2) {
        (TypeV::Polymorphic(fa, b1), TypeV::Polymorphic(fb, b2)) => {
            let m = rename_map(fb, fa);
            lemma_rename_map(fb, fa);
            lemma_subst_function_free(*b2, m);
            let b2r = subst(*b2, m);
            lemma_unify_function_free(*b1, b2r);
            lemma_unify_mono(*b1, b2r, size(*b1) + size(b2r), f1);
        },
        (TypeV::Apply(c1, a1), TypeV::Apply(c2, a2)) => {
            lemma_function_free_seq(a1);
            lemma_function_free_seq(a2);
            lemma_seq_measures(a1);
            lemma_seq_measures(a2);
            assert forall|i: int| 0 <= i < a1.len() && 0 <= i < a2.len() implies (#[trigger] unify_fuel(
                a1[i],
                a2[i],
                f1,
            )) is Some by {
                lemma_unify_function_free(a1[i], a2[i]);
                lemma_unify_mono(a1[i], a2[i], size(a1[i]) + size(a2[i]), f1);
            }
            lemma_unify_args_all(a1, a2, f1);
        },
        _ => {},
    }
    assert(unify_fuel(t1, t2, f) is Some);
}

/// Two applied types whose constructors differ, neither of them a
/// type-level function nor both unique, do not unify: the outcome names
/// the two constructors.
pub proof fn lemma_unify_different_constructors(c1: ConstructorV, a1: Seq<TypeV>, c2: ConstructorV, a2: Seq<TypeV>)
    requires
        !(c1 is FunctionType),
        !(c2 is FunctionType),
        !(c1 is Unique && c2 is Unique),
        c1 != c2,
    ensures
        unify_terminates(TypeV::Apply(c1, a1), TypeV::Apply(c2, a2)),
        unify_outcome(TypeV::Apply(c1, a1), TypeV::Apply(c2, a2)) == Err::<(), MismatchV>(
            MismatchV::Constructors(c1, c2),
        ),
{
    let t1 = TypeV::Apply(c1, a1);
    let t2 = TypeV::Apply(c2, a2);
    assert(unify_fuel(t1, t2, 1) == Some(Err::<(), MismatchV>(MismatchV::Constructors(c1, c2))));
    lemma_unify_step(t1, t2, 1);
}

/// A substitution that binds each name only to the variable of the same
/// name.
pub open spec fn fixes_names(m: Map<Seq<char>, TypeV>) -> bool {
    forall|k: Seq<char>| m.contains_key(k) ==> #[trigger] m[k] == TypeV::Variable(k)
}

/// Substituting names by themselves leaves a type without type-level
/// functions as it is.
pub proof fn lemma_subst_fixes(t: TypeV, m: Map<Seq<char>, TypeV>)
    requires
        function_free(t),
        fixes_names(m),
    ensures
        subst(t, m) == t,
    decreases t,
{
    match t {
        TypeV::Apply(c, args) => {
            lemma_subst_seq_fixes(args, m);
            match c {
                ConstructorV::FunctionType(_, _) => {},
                _ => {
                    assert(subst(t, m) == TypeV::Apply(c, subst_seq(args, m)));
                },
            }
        },
        TypeV::Variable(x) => {},
        TypeV::Polymorphic(fs, b) => {
            assert forall|k: Seq<char>| identity_map(fs).contains_key(k) implies #[trigger] identity_map(
                fs,
            )[k] == TypeV::Variable(k) by {
                crate::roxc::semant::substitution::lemma_identity_map(fs, k);
            }
            lemma_subst_fixes(*b, identity_map(fs));
        },
    }
}

/// `lemma_subst_fixes` for each element of a sequence.
pub proof fn lemma_subst_seq_fixes(s: Seq<TypeV>, m: Map<Seq<char>, TypeV>)
    requires
        function_free_seq(s),
        fixes_names(m),
    ensures
        subst_seq(s, m) == s,
    decreases s,
{
    if s.len() > 0 {
        lemma_subst_seq_fixes(s.drop_last(), m);
        lemma_subst_fixes(s.last(), m);
        assert(subst_seq(s, m) =~= s);
    }
}

/// Where unification of a type with itself ends, it succeeds.
proof fn lemma_unify_reflexive_fuel(t: TypeV, f: nat)
    requires
        function_free(t),
        unify_fuel(t, t, f) is Some,
    ensures
        unify_fuel(t, t, f) == Some(Ok::<(), MismatchV>(())),
    decreases f, 0nat,
{
    let f1 = (f - 1) as nat;
    match t {
        TypeV::Polymorphic(fs, b) => {
            assert(rename_map(fs, fs) == identity_map(fs));
            assert forall|k: Seq<char>| identity_map(fs).contains_key(k) implies #[trigger] identity_map(
                fs,
            )[k] == TypeV::Variable(k) by {
                crate::roxc::semant::substitution::lemma_identity_map(fs, k);
            }
            lemma_subst_fixes(*b, identity_map(fs));
            lemma_unify_reflexive_fuel(*b, f1);
        },
        TypeV::Apply(c, args) => {
            lemma_unify_args_reflexive_fuel(args, f1);
        },
        TypeV::Variable(_) => {},
    }
}

/// Where unification of a list of types with itself ends, it succeeds.
proof fn lemma_unify_args_reflexive_fuel(s: Seq<TypeV>, f: nat)
    requires
        function_free_seq(s),
        unify_args_fuel(s, s, f) is Some,
    ensures
        unify_args_fuel(s, s, f) == Some(Ok::<(), MismatchV>(())),
    decreases f, s.len() + 1,
{
    if s.len() > 0 {
        lemma_function_free_seq(s);
        lemma_function_free_seq(s.drop_first());
        assert forall|i: int| 0 <= i < s.drop_first().len() implies #[trigger] function_free(
            s.drop_first()[i],
        ) by {
            assert(s.drop_first()[i] == s[i + 1]);
        }
        assert(function_free(s[0]));
        lemma_unify_reflexive_fuel(s[0], f);
        lemma_unify_args_reflexive_fuel(s.drop_first(), f);
    }
}

/// Every type without type-level functions unifies with itself: its
/// unification with itself ends, and succeeds.  Among these are all the
/// `ordinary` types, and the types with unique constructors.
pub proof fn lemma_unify_reflexive(t: TypeV)
    requires
        function_free(t),
    ensures
        unify_terminates(t, t),
        unify_outcome(t, t) == Ok::<(), MismatchV>(()),
{
    lemma_unify_function_free(t, t);
    let f = size(t) + size(t);
    lemma_unify_step(t, t, f);
    lemma_unify_reflexive_fuel(t, f);
}

} // verus!
