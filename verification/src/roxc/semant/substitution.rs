//! Substitution of types for type variables, with type-level functions
//! applied as they are met.
use vstd::prelude::*;
use crate::roxc::semant::env::{
    lemma_zip_prefix, lemma_zip_prefix_pointwise, zip_argument_types, zip_map, zip_prefix,
    TypeEnv,
};
use crate::roxc::semant::types::{
    clone_names, lemma_tys_view, names_view, tc_view, ty_view, tys_view, ConstructorV, Type,
    TypeConstructor, TypeV,
};

verus! {

broadcast use vstd::seq::group_seq_axioms, vstd::std_specs::vec::group_vec_axioms;

/// The type a name stands for under a substitution: its binding, or the
/// variable itself when it is unbound.
pub open spec fn lookup(m: Map<Seq<char>, TypeV>, x: Seq<char>) -> TypeV {
    if m.contains_key(x) {
        m[x]
    } else {
        TypeV::Variable(x)
    }
}

/// The substitution that binds each of the names to the variable of the
/// same name.
pub open spec fn identity_map(fs: Seq<Seq<char>>) -> Map<Seq<char>, TypeV> {
    zip_map(fs, fs.map_values(|f: Seq<char>| TypeV::Variable(f)))
}

/// The result of substituting `m` into `t`.  A type-level function applied
/// to arguments is replaced by its body, under `m` extended with the
/// formal parameters bound to the substituted arguments.  The binding of a
/// variable is taken as it is.  The body of a polymorphic type is only
/// renamed onto its own formal parameters: `m` does not reach inside it.
pub open spec fn subst(t: TypeV, m: Map<Seq<char>, TypeV>) -> TypeV
    decreases t,
{
    match t {
        TypeV::Apply(c, args) => match c {
            ConstructorV::FunctionType(fs, body) => subst(
                *body,
                m.union_prefer_right(zip_map(fs, subst_seq(args, m))),
            ),
            _ => TypeV::Apply(c, subst_seq(args, m)),
        },
        TypeV::Variable(x) => lookup(m, x),
        TypeV::Polymorphic(fs, body) => TypeV::Polymorphic(
            fs,
            Box::new(subst(*body, identity_map(fs))),
        ),
    }
}

/// `subst` applied to each type of a sequence.
pub open spec fn subst_seq(s: Seq<TypeV>, m: Map<Seq<char>, TypeV>) -> Seq<TypeV>
    decreases s,
{
    if s.len() == 0 {
        Seq::empty()
    } else {
        subst_seq(s.drop_last(), m).push(subst(s.last(), m))
    }
}

/// How deeply applications of type-level functions nest in a type, not
/// counting what stands inside constructors other than such functions.
pub open spec fn depth(t: TypeV) -> nat
    decreases t,
{
    match t {
        TypeV::Apply(c, args) => match c {
            ConstructorV::FunctionType(_, body) => 1 + vstd::math::max(
                depth(*body) as int,
                depth_seq(args) as int,
            ) as nat,
            _ => depth_seq(args),
        },
        TypeV::Variable(_) => 0,
        TypeV::Polymorphic(_, body) => depth(*body),
    }
}

/// The greatest `depth` in a sequence of types.
pub open spec fn depth_seq(s: Seq<TypeV>) -> nat
    decreases s,
{
    if s.len() == 0 {
        0
    } else {
        vstd::math::max(depth_seq(s.drop_last()) as int, depth(s.last()) as int) as nat
    }
}

/// The number of nodes of a type, not counting what stands inside its
/// constructors.
pub open spec fn size(t: TypeV) -> nat
    decreases t,
{
    match t {
        TypeV::Apply(_, args) => 1 + size_seq(args),
        TypeV::Variable(_) => 1,
        TypeV::Polymorphic(_, body) => 1 + size(*body),
    }
}

/// The sum of the sizes of a sequence of types.
pub open spec fn size_seq(s: Seq<TypeV>) -> nat
    decreases s,
{
    if s.len() == 0 {
        0
    } else {
        size_seq(s.drop_last()) + size(s.last())
    }
}

/// `subst_seq` substitutes each element.
pub proof fn lemma_subst_seq(s: Seq<TypeV>, m: Map<Seq<char>, TypeV>)
    ensures
        subst_seq(s, m).len() == s.len(),
        forall|i: int| 0 <= i < s.len() ==> #[trigger] subst_seq(s, m)[i] == subst(s[i], m),
    decreases s.len(),
{
    if s.len() > 0 {
        lemma_subst_seq(s.drop_last(), m);
    }
}

/// Each element is within the bounds that `depth_seq` and `size_seq` give.
pub proof fn lemma_seq_measures(s: Seq<TypeV>)
    ensures
        forall|i: int| 0 <= i < s.len() ==> #[trigger] depth(s[i]) <= depth_seq(s),
        forall|i: int| 0 <= i < s.len() ==> #[trigger] size(s[i]) <= size_seq(s),
    decreases s.len(),
{
    if s.len() > 0 {
        lemma_seq_measures(s.drop_last());
        assert forall|i: int| 0 <= i < s.len() implies #[trigger] depth(s[i]) <= depth_seq(s) by {
            if i < s.len() - 1 {
                assert(s[i] == s.drop_last()[i]);
            }
        }
        assert forall|i: int| 0 <= i < s.len() implies #[trigger] size(s[i]) <= size_seq(s) by {
            if i < s.len() - 1 {
                assert(s[i] == s.drop_last()[i]);
            }
        }
    }
}

/// A sequence whose elements all have depth at most `n` has depth at most `n`.
pub proof fn lemma_depth_seq_bound(s: Seq<TypeV>, n: nat)
    requires
        forall|i: int| 0 <= i < s.len() ==> #[trigger] depth(s[i]) <= n,
    ensures
        depth_seq(s) <= n,
    decreases s.len(),
{
    if s.len() > 0 {
        assert forall|i: int| 0 <= i < s.drop_last().len() implies #[trigger] depth(s.drop_last()[i]) <= n by {
            assert(s.drop_last()[i] == s[i]);
        }
        lemma_depth_seq_bound(s.drop_last(), n);
        assert(depth(s[s.len() - 1]) <= n);
    }
}

/// The values of a zipped map are among the zipped types.
pub proof fn lemma_zip_values(ns: Seq<Seq<char>>, ts: Seq<TypeV>, k: Seq<char>)
    requires
        zip_map(ns, ts).contains_key(k),
    ensures
        exists|j: int| 0 <= j < ts.len() && zip_map(ns, ts)[k] == ts[j],
{
    let n = if ns.len() < ts.len() { ns.len() as int } else { ts.len() as int };
    lemma_zip_prefix(ns, ts, n, k);
}

/// After substitution no application of a type-level function is left but
/// those that the bindings brought in.
pub proof fn lemma_subst_depth(t: TypeV, m: Map<Seq<char>, TypeV>, n: nat)
    requires
        forall|k: Seq<char>| m.contains_key(k) ==> #[trigger] depth(m[k]) <= n,
    ensures
        depth(subst(t, m)) <= n,
    decreases t,
{
    match t {
        TypeV::Apply(c, args) => {
            lemma_subst_seq_depth(args, m, n);
            match c {
                ConstructorV::FunctionType(fs, body) => {
                    let s = subst_seq(args, m);
                    let m2 = m.union_prefer_right(zip_map(fs, s));
                    lemma_subst_seq(args, m);
                    lemma_seq_measures(s);
                    assert forall|k: Seq<char>| m2.contains_key(k) implies #[trigger] depth(m2[k])
                        <= n by {
                        if zip_map(fs, s).contains_key(k) {
                            lemma_zip_values(fs, s, k);
                        }
                    }
                    lemma_subst_depth(*body, m2, n);
                },
                _ => {},
            }
        },
        TypeV::Variable(x) => {},
        TypeV::Polymorphic(fs, body) => {
            let im = identity_map(fs);
            let vs = fs.map_values(|f: Seq<char>| TypeV::Variable(f));
            assert forall|k: Seq<char>| im.contains_key(k) implies #[trigger] depth(im[k]) <= 0 by {
                lemma_zip_values(fs, vs, k);
            }
            lemma_subst_depth(*body, im, 0);
        },
    }
}

/// `lemma_subst_depth` for each element of a sequence.
pub proof fn lemma_subst_seq_depth(s: Seq<TypeV>, m: Map<Seq<char>, TypeV>, n: nat)
    requires
        forall|k: Seq<char>| m.contains_key(k) ==> #[trigger] depth(m[k]) <= n,
    ensures
        depth_seq(subst_seq(s, m)) <= n,
    decreases s,
{
    if s.len() > 0 {
        lemma_subst_seq_depth(s.drop_last(), m, n);
        lemma_subst_depth(s.last(), m, n);
        assert(subst_seq(s, m).drop_last() =~= subst_seq(s.drop_last(), m));
    }
}

/// Substituting `m1` and then `m2` is the one substitution that maps a
/// name bound by `m1` to its binding under `m2`, and any other name as `m2`
/// does.
pub open spec fn compose(m1: Map<Seq<char>, TypeV>, m2: Map<Seq<char>, TypeV>) -> Map<
    Seq<char>,
    TypeV,
> {
    Map::new(
        |k: Seq<char>| m1.contains_key(k) || m2.contains_key(k),
        |k: Seq<char>|
            if m1.contains_key(k) {
                subst(m1[k], m2)
            } else {
                m2[k]
            },
    )
}

/// Zipping names with the substituted types is substituting into the
/// values of the zipped map.
pub proof fn lemma_zip_subst(ns: Seq<Seq<char>>, ts: Seq<TypeV>, m: Map<Seq<char>, TypeV>)
    ensures
        forall|k: Seq<char>|
            #![trigger zip_map(ns, subst_seq(ts, m)).contains_key(k)]
            zip_map(ns, subst_seq(ts, m)).contains_key(k) == zip_map(ns, ts).contains_key(k),
        forall|k: Seq<char>|
            #![trigger zip_map(ns, subst_seq(ts, m))[k]]
            zip_map(ns, ts).contains_key(k) ==> zip_map(ns, subst_seq(ts, m))[k] == subst(
                zip_map(ns, ts)[k],
                m,
            ),
{
    let us = subst_seq(ts, m);
    lemma_subst_seq(ts, m);
    let n = if ns.len() < ts.len() { ns.len() as int } else { ts.len() as int };
    assert forall|k: Seq<char>|
        #![trigger zip_map(ns, subst_seq(ts, m)).contains_key(k)]
        zip_map(ns, subst_seq(ts, m)).contains_key(k) == zip_map(ns, ts).contains_key(k) by {
        lemma_zip_prefix_pointwise(ns, ts, us, n, k);
    }
    assert forall|k: Seq<char>|
        #![trigger zip_map(ns, subst_seq(ts, m))[k]]
        zip_map(ns, ts).contains_key(k) implies zip_map(ns, subst_seq(ts, m))[k] == subst(
            zip_map(ns, ts)[k],
            m,
        ) by {
        lemma_zip_prefix_pointwise(ns, ts, us, n, k);
    }
}

/// Renaming names onto themselves binds each to its own variable.
pub proof fn lemma_identity_map(fs: Seq<Seq<char>>, k: Seq<char>)
    ensures
        identity_map(fs).contains_key(k) ==> identity_map(fs)[k] == TypeV::Variable(k),
{
    let vs = fs.map_values(|f: Seq<char>| TypeV::Variable(f));
    lemma_zip_prefix(fs, vs, fs.len() as int, k);
}

/// Substituting twice is substituting once with the composed map.
pub proof fn lemma_compose(t: TypeV, m1: Map<Seq<char>, TypeV>, m2: Map<Seq<char>, TypeV>)
    ensures
        subst(subst(t, m1), m2) == subst(t, compose(m1, m2)),
    decreases t,
{
    match t {
        TypeV::Apply(c, args) => {
            lemma_compose_seq(args, m1, m2);
            match c {
                ConstructorV::FunctionType(fs, body) => {
                    let s1 = subst_seq(args, m1);
                    let z1 = zip_map(fs, s1);
                    let c12 = compose(m1, m2);
                    lemma_compose(*body, m1.union_prefer_right(z1), m2);
                    lemma_zip_subst(fs, s1, m2);
                    assert(compose(m1.union_prefer_right(z1), m2) =~= c12.union_prefer_right(
                        zip_map(fs, subst_seq(s1, m2)),
                    ));
                },
                _ => {},
            }
        },
        TypeV::Variable(x) => {},
        TypeV::Polymorphic(fs, body) => {
            let im = identity_map(fs);
            lemma_compose(*body, im, im);
            assert forall|k: Seq<char>| im.contains_key(k) implies compose(im, im)[k] == im[k] by {
                lemma_identity_map(fs, k);
            }
            assert(compose(im, im) =~= im);
        },
    }
}

/// `lemma_compose` for each element of a sequence.
pub proof fn lemma_compose_seq(s: Seq<TypeV>, m1: Map<Seq<char>, TypeV>, m2: Map<Seq<char>, TypeV>)
    ensures
        subst_seq(subst_seq(s, m1), m2) == subst_seq(s, compose(m1, m2)),
    decreases s,
{
    if s.len() > 0 {
        lemma_compose_seq(s.drop_last(), m1, m2);
        lemma_compose(s.last(), m1, m2);
        assert(subst_seq(s, m1).drop_last() =~= subst_seq(s.drop_last(), m1));
    }
}

/// Substitutes the bindings of `env` into `ty`, applying the type-level
/// functions that it meets.
pub fn substitute(ty: Type, env: &mut TypeEnv) -> (r: Type)
    ensures
        r@ == subst(ty@, old(env)@),
        *final(env) == *old(env),
    decreases depth(ty@), 2 * size(ty@),
{
    match ty {
        Type::Apply(type_constructor, type_arguments) => {
            match type_constructor {
                TypeConstructor::FunctionType(formal_types, type_) => {
                    let ghost args = tys_view(type_arguments@);
                    let ghost fs = names_view(formal_types@);
                    proof {
                        assert(ty_view(ty) == TypeV::Apply(
                            ConstructorV::FunctionType(fs, Box::new(ty_view(*type_))),
                            args,
                        ));
                        lemma_seq_measures(args);
                        assert forall|k: Seq<char>| zip_map(fs, args).contains_key(k) implies #[trigger] depth(
                            zip_map(fs, args)[k],
                        ) <= depth_seq(args) by {
                            lemma_zip_values(fs, args, k);
                        }
                        lemma_subst_depth(ty_view(*type_), zip_map(fs, args), depth_seq(args));
                    }
                    let mut type_mapping = zip_argument_types(formal_types, type_arguments);
                    let inner = substitute(*type_, &mut type_mapping);
                    let r = substitute(inner, env);
                    proof {
                        let m = env@;
                        lemma_compose(ty_view(*type_), zip_map(fs, args), m);
                        lemma_zip_subst(fs, args, m);
                        assert(compose(zip_map(fs, args), m) =~= m.union_prefer_right(
                            zip_map(fs, subst_seq(args, m)),
                        ));
                    }
                    r
                },
                _ => {
                    proof {
                        assert(ty_view(ty) == TypeV::Apply(
                            tc_view(type_constructor),
                            tys_view(type_arguments@),
                        ));
                    }
                    let args = substitute_all(type_arguments, env);
                    let r = Type::Apply(type_constructor, args);
                    r
                },
            }
        },
        Type::Variable(identifier) => match env.get(&identifier) {
            Some(type_) => type_.duplicate(),
            None => Type::Variable(identifier),
        },
        Type::PolymorphicType(formal_parameters, type_) => {
            let new_formal_parameters = clone_names(&formal_parameters);
            let mut variables: Vec<Type> = Vec::new();
            let mut i: usize = 0;
            while i < new_formal_parameters.len()
                invariant
                    i <= new_formal_parameters.len(),
                    variables@.len() == i,
                    forall|j: int|
                        0 <= j < i ==> #[trigger] variables@[j] == Type::Variable(
                            new_formal_parameters@[j],
                        ),
                decreases new_formal_parameters.len() - i,
            {
                variables.push(Type::Variable(new_formal_parameters[i].clone()));
                i += 1;
            }
            let ghost fs = names_view(formal_parameters@);
            proof {
                lemma_tys_view(variables@);
                assert(tys_view(variables@) =~= fs.map_values(|f: Seq<char>| TypeV::Variable(f)));
            }
            proof {
                assert(ty_view(ty) == TypeV::Polymorphic(fs, Box::new(ty_view(*type_))));
            }
            let mut inner_scope = zip_argument_types(formal_parameters, variables);
            let new_type = substitute(*type_, &mut inner_scope);
            Type::PolymorphicType(new_formal_parameters, Box::new(new_type))
        },
    }
}

/// Substitutes into each type of a list.
fn substitute_all(types: Vec<Type>, env: &mut TypeEnv) -> (r: Vec<Type>)
    ensures
        tys_view(r@) == subst_seq(tys_view(types@), old(env)@),
        *final(env) == *old(env),
    decreases depth_seq(tys_view(types@)), 2 * size_seq(tys_view(types@)) + 1,
{
    let ghost s = tys_view(types@);
    proof {
        lemma_tys_view(types@);
        lemma_seq_measures(s);
    }
    let mut r: Vec<Type> = Vec::new();
    let mut i: usize = 0;
    while i < types.len()
        invariant
            i <= types.len(),
            s == tys_view(types@),
            s.len() == types@.len(),
            forall|j: int| 0 <= j < types@.len() ==> #[trigger] s[j] == ty_view(types@[j]),
            forall|j: int| 0 <= j < s.len() ==> #[trigger] depth(s[j]) <= depth_seq(s),
            forall|j: int| 0 <= j < s.len() ==> #[trigger] size(s[j]) <= size_seq(s),
            tys_view(r@) == subst_seq(s.take(i as int), env@),
            *env == *old(env),
        decreases types.len() - i,
    {
        let t = types[i].duplicate();
        proof {
            assert(t@ == s[i as int]);
            assert(depth(s[i as int]) <= depth_seq(s));
            assert(size(s[i as int]) <= size_seq(s));
        }
        let u = substitute(t, env);
        let ghost r0 = r@;
        r.push(u);
        proof {
            assert(r@.drop_last() =~= r0);
            assert(s.take(i + 1).drop_last() =~= s.take(i as int));
        }
        i += 1;
    }
    proof {
        assert(s.take(types.len() as int) =~= s);
    }
    r
}

} // verus!
