//! The text of a type in diagnostics, in the shape of its debug form.
use vstd::prelude::*;
use crate::roxc::semant::types::{
    fields_view, lemma_fields_view, lemma_tys_view, names_view, tc_view, ty_view, tys_view,
    ConstructorV, Identifier, Type, TypeConstructor, TypeV,
};
use crate::roxc::text::{debug_list, debug_list_text, debug_text, push_debug, push_str};

verus! {

broadcast use vstd::seq::group_seq_axioms, vstd::std_specs::vec::group_vec_axioms;

/// The text of a type.
pub open spec fn type_text(t: TypeV) -> Seq<char>
    decreases t,
{
    match t {
        TypeV::Apply(c, args) => "Apply("@ + constructor_text(c) + ", ["@ + types_text(args) + "])"@,
        TypeV::Variable(x) => "Variable("@ + debug_text(x) + ")"@,
        TypeV::Polymorphic(fs, b) => "PolymorphicType("@ + debug_list(fs) + ", "@ + type_text(*b)
            + ")"@,
    }
}

/// The texts of the types, separated by a comma and a space.
pub open spec fn types_text(s: Seq<TypeV>) -> Seq<char>
    decreases s,
{
    if s.len() == 0 {
        Seq::empty()
    } else if s.len() == 1 {
        type_text(s[0])
    } else {
        types_text(s.drop_last()) + ", "@ + type_text(s.last())
    }
}

/// The texts of record fields, each as a pair of the `Debug` text of its name and its
/// type, separated by a comma and a space.
pub open spec fn fields_text(s: Seq<(Seq<char>, TypeV)>) -> Seq<char>
    decreases s,
{
    if s.len() == 0 {
        Seq::empty()
    } else if s.len() == 1 {
        "("@ + debug_text(s[0].0) + ", "@ + type_text(s[0].1) + ")"@
    } else {
        fields_text(s.drop_last()) + ", "@ + "("@ + debug_text(s.last().0) + ", "@ + type_text(
            s.last().1,
        ) + ")"@
    }
}

/// The text of a type constructor.
pub open spec fn constructor_text(c: ConstructorV) -> Seq<char>
    decreases c,
{
    match c {
        ConstructorV::Bool => "Bool"@,
        ConstructorV::Float => "Float"@,
        ConstructorV::Int => "Int"@,
        ConstructorV::Str => "String"@,
        ConstructorV::Void => "Void"@,
        ConstructorV::Arrow => "Arrow"@,
        ConstructorV::Array(t) => "Array("@ + type_text(*t) + ")"@,
        ConstructorV::Record(fields) => "Record(["@ + fields_text(fields) + "])"@,
        ConstructorV::FunctionType(fs, b) => "FunctionType("@ + debug_list(fs) + ", "@ + type_text(
            *b,
        ) + ")"@,
        ConstructorV::Unique(c) => "Unique("@ + constructor_text(*c) + ")"@,
    }
}

/// Appends the text of a type.
pub fn write_type(out: &mut String, t: &Type)
    ensures
        final(out)@ == old(out)@ + type_text(t@),
    decreases t,
{
    let ghost o = out@;
    match t {
        Type::Apply(c, args) => {
            push_str(out, "Apply(");
            write_constructor(out, c);
            push_str(out, ", [");
            write_types(out, args);
            push_str(out, "])");
            assert(out@ =~= o + type_text(t@));
        },
        Type::Variable(x) => {
            push_str(out, "Variable(");
            push_debug(out, x.as_str());
            push_str(out, ")");
            assert(out@ =~= o + type_text(t@));
        },
        Type::PolymorphicType(fs, b) => {
            push_str(out, "PolymorphicType(");
            let names = debug_list_text(fs);
            assert(Seq::new(fs@.len(), |i: int| fs@[i]@) =~= names_view(fs@));
            push_str(out, names.as_str());
            push_str(out, ", ");
            write_type(out, b);
            push_str(out, ")");
            assert(out@ =~= o + type_text(t@));
        },
    }
}

/// Appends the texts of the types, separated by a comma and a space.
pub fn write_types(out: &mut String, v: &Vec<Type>)
    ensures
        final(out)@ == old(out)@ + types_text(tys_view(v@)),
    decreases v,
{
    let ghost o = out@;
    let ghost s = tys_view(v@);
    proof {
        lemma_tys_view(v@);
    }
    let mut i: usize = 0;
    while i < v.len()
        invariant
            i <= v.len(),
            s == tys_view(v@),
            s.len() == v@.len(),
            forall|j: int| 0 <= j < v@.len() ==> #[trigger] s[j] == ty_view(v@[j]),
            out@ == o + types_text(s.take(i as int)),
        decreases v.len() - i,
    {
        let ghost o2 = out@;
        if i > 0 {
            push_str(out, ", ");
        }
        write_type(out, &v[i]);
        proof {
            let t = s.take(i + 1);
            assert(t.drop_last() =~= s.take(i as int));
            assert(t.last() == s[i as int]);
            assert(out@ =~= o + types_text(t));
        }
        i += 1;
    }
    assert(s.take(v.len() as int) =~= s);
}

/// Appends the texts of record fields.
pub fn write_fields(out: &mut String, v: &Vec<(Identifier, Type)>)
    ensures
        final(out)@ == old(out)@ + fields_text(fields_view(v@)),
    decreases v,
{
    let ghost o = out@;
    let ghost s = fields_view(v@);
    proof {
        lemma_fields_view(v@);
    }
    let mut i: usize = 0;
    while i < v.len()
        invariant
            i <= v.len(),
            s == fields_view(v@),
            s.len() == v@.len(),
            forall|j: int| 0 <= j < v@.len() ==> #[trigger] s[j] == (v@[j].0@, ty_view(v@[j].1)),
            out@ == o + fields_text(s.take(i as int)),
        decreases v.len() - i,
    {
        if i > 0 {
            push_str(out, ", ");
        }
        push_str(out, "(");
        push_debug(out, v[i].0.as_str());
        push_str(out, ", ");
        write_type(out, &v[i].1);
        push_str(out, ")");
        proof {
            let t = s.take(i + 1);
            assert(t.drop_last() =~= s.take(i as int));
            assert(t.last() == s[i as int]);
            assert(out@ =~= o + fields_text(t));
        }
        i += 1;
    }
    assert(s.take(v.len() as int) =~= s);
}

/// Appends the text of a type constructor.
pub fn write_constructor(out: &mut String, c: &TypeConstructor)
    ensures
        final(out)@ == old(out)@ + constructor_text(c@),
    decreases c,
{
    let ghost o = out@;
    match c {
        TypeConstructor::Bool => push_str(out, "Bool"),
        TypeConstructor::Float => push_str(out, "Float"),
        TypeConstructor::Int => push_str(out, "Int"),
        TypeConstructor::String => push_str(out, "String"),
        TypeConstructor::Void => push_str(out, "Void"),
        TypeConstructor::Arrow => push_str(out, "Arrow"),
        TypeConstructor::Array(t) => {
            push_str(out, "Array(");
            write_type(out, t);
            push_str(out, ")");
            assert(out@ =~= o + constructor_text(c@));
        },
        TypeConstructor::Record(fields) => {
            push_str(out, "Record([");
            write_fields(out, fields);
            push_str(out, "])");
            assert(out@ =~= o + constructor_text(c@));
        },
        TypeConstructor::FunctionType(fs, b) => {
            push_str(out, "FunctionType(");
            let names = debug_list_text(fs);
            assert(Seq::new(fs@.len(), |i: int| fs@[i]@) =~= names_view(fs@));
            push_str(out, names.as_str());
            push_str(out, ", ");
            write_type(out, b);
            push_str(out, ")");
            assert(out@ =~= o + constructor_text(c@));
        },
        TypeConstructor::Unique(inner) => {
            push_str(out, "Unique(");
            write_constructor(out, inner);
            push_str(out, ")");
            assert(out@ =~= o + constructor_text(c@));
        },
    }
}

} // verus!
