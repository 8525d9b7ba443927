//! Structural comparison of types: two types are equal when their models are.
use vstd::prelude::*;
use crate::roxc::semant::types::{
    fields_view, lemma_fields_view, lemma_tys_view, names_view, tc_view, ty_view, tys_view,
    Identifier, Type, TypeConstructor,
};

verus! {

broadcast use vstd::seq::group_seq_axioms, vstd::std_specs::vec::group_vec_axioms;

/// Whether two lists of names hold the same names in the same order.
pub fn names_eq(a: &Vec<Identifier>, b: &Vec<Identifier>) -> (r: bool)
    ensures
        r == (names_view(a@) == names_view(b@)),
{
    if a.len() != b.len() {
        assert(names_view(a@).len() != names_view(b@).len());
        return false;
    }
    let mut i: usize = 0;
    while i < a.len()
        invariant
            i <= a.len(),
            a.len() == b.len(),
            forall|j: int| 0 <= j < i ==> (#[trigger] a@[j])@ == b@[j]@,
        decreases a.len() - i,
    {
        if a[i] != b[i] {
            assert(names_view(a@)[i as int] != names_view(b@)[i as int]);
            return false;
        }
        i += 1;
    }
    assert(names_view(a@) =~= names_view(b@));
    true
}

/// Whether two types have the same model.
pub fn type_eq(a: &Type, b: &Type) -> (r: bool)
    ensures
        r == (a@ == b@),
    decreases a,
{
    match (a, b) {
        (Type::Apply(c1, a1), Type::Apply(c2, a2)) => {
            let same_constructor = constructor_eq(c1, c2);
            if !same_constructor {
                return false;
            }
            types_eq(a1, a2)
        },
        (Type::Variable(x), Type::Variable(y)) => *x == *y,
        (Type::PolymorphicType(f1, b1), Type::PolymorphicType(f2, b2)) => {
            let same_names = names_eq(f1, f2);
            if !same_names {
                return false;
            }
            type_eq(b1, b2)
        },
        _ => false,
    }
}

/// Whether two lists of types have the same models, position by position.
pub fn types_eq(a: &Vec<Type>, b: &Vec<Type>) -> (r: bool)
    ensures
        r == (tys_view(a@) == tys_view(b@)),
    decreases a,
{
    proof {
        lemma_tys_view(a@);
        lemma_tys_view(b@);
    }
    if a.len() != b.len() {
        return false;
    }
    let mut i: usize = 0;
    while i < a.len()
        invariant
            i <= a.len(),
            a.len() == b.len(),
            tys_view(a@).len() == a.len(),
            tys_view(b@).len() == b.len(),
            forall|j: int| 0 <= j < a.len() ==> #[trigger] tys_view(a@)[j] == ty_view(a@[j]),
            forall|j: int| 0 <= j < b.len() ==> #[trigger] tys_view(b@)[j] == ty_view(b@[j]),
            forall|j: int| 0 <= j < i ==> #[trigger] tys_view(a@)[j] == tys_view(b@)[j],
        decreases a.len() - i,
    {
        let same = type_eq(&a[i], &b[i]);
        if !same {
            assert(tys_view(a@)[i as int] != tys_view(b@)[i as int]);
            return false;
        }
        i += 1;
    }
    assert(tys_view(a@) =~= tys_view(b@));
    true
}

/// Whether two lists of record fields have the same names and types.
pub fn fields_eq(a: &Vec<(Identifier, Type)>, b: &Vec<(Identifier, Type)>) -> (r: bool)
    ensures
        r == (fields_view(a@) == fields_view(b@)),
    decreases a,
{
    proof {
        lemma_fields_view(a@);
        lemma_fields_view(b@);
    }
    if a.len() != b.len() {
        return false;
    }
    let mut i: usize = 0;
    while i < a.len()
        invariant
            i <= a.len(),
            a.len() == b.len(),
            fields_view(a@).len() == a.len(),
            fields_view(b@).len() == b.len(),
            forall|j: int|
                0 <= j < a.len() ==> #[trigger] fields_view(a@)[j] == (a@[j].0@, ty_view(a@[j].1)),
            forall|j: int|
                0 <= j < b.len() ==> #[trigger] fields_view(b@)[j] == (b@[j].0@, ty_view(b@[j].1)),
            forall|j: int| 0 <= j < i ==> #[trigger] fields_view(a@)[j] == fields_view(b@)[j],
        decreases a.len() - i,
    {
        let same_name = a[i].0 == b[i].0;
        if !same_name {
            assert(fields_view(a@)[i as int] != fields_view(b@)[i as int]);
            return false;
        }
        let same_type = type_eq(&a[i].1, &b[i].1);
        if !same_type {
            assert(fields_view(a@)[i as int] != fields_view(b@)[i as int]);
            return false;
        }
        i += 1;
    }
    assert(fields_view(a@) =~= fields_view(b@));
    true
}

/// Whether two type constructors have the same model.
pub fn constructor_eq(a: &TypeConstructor, b: &TypeConstructor) -> (r: bool)
    ensures
        r == (a@ == b@),
    decreases a,
{
    match (a, b) {
        (TypeConstructor::Bool, TypeConstructor::Bool) => true,
        (TypeConstructor::Float, TypeConstructor::Float) => true,
        (TypeConstructor::Int, TypeConstructor::Int) => true,
        (TypeConstructor::String, TypeConstructor::String) => true,
        (TypeConstructor::Void, TypeConstructor::Void) => true,
        (TypeConstructor::Arrow, TypeConstructor::Arrow) => true,
        (TypeConstructor::Array(x), TypeConstructor::Array(y)) => type_eq(x, y),
        (TypeConstructor::Record(x), TypeConstructor::Record(y)) => fields_eq(x, y),
        (TypeConstructor::FunctionType(f1, b1), TypeConstructor::FunctionType(f2, b2)) => {
            let same_names = names_eq(f1, f2);
            if !same_names {
                return false;
            }
            type_eq(b1, b2)
        },
        (TypeConstructor::Unique(x), TypeConstructor::Unique(y)) => constructor_eq(x, y),
        _ => false,
    }
}

} // verus!
