//! The types that the type checker works on, and their mathematical
//! counterparts.  Every exec type is related to its model by a view, and
//! every contract of the type checker is stated over the models.
use vstd::prelude::*;

verus! {

broadcast use vstd::seq::group_seq_axioms, vstd::std_specs::vec::group_vec_axioms;

/// A name in the source program.
pub type Identifier = String;

/// The constructor at the head of an applied type.
#[derive(Debug)]
pub enum TypeConstructor {
    Bool,
    Float,
    Int,
    String,
    Void,
    Arrow,
    Array(Box<Type>),
    /// The Record type constructor takes a list of field name identifiers and their types
    Record(Vec<(Identifier, Type)>),
    /// Takes the list of formal type parameters and the return type
    FunctionType(Vec<Identifier>, Box<Type>),
    /// `Unique` type constructors exist to differentiate two named types with the same fields.
    Unique(Box<TypeConstructor>),
}

/// A type of the Rox language.
#[derive(Debug)]
pub enum Type {
    Apply(TypeConstructor, Vec<Type>),
    Variable(Identifier),
    /// (0) is the list of formal arguments,
    /// and (1) is the rest of the type declaration
    PolymorphicType(Vec<Identifier>, Box<Type>),
}

/// The mathematical model of a `Type`: names are character sequences and
/// argument lists are sequences.
pub enum TypeV {
    Apply(ConstructorV, Seq<TypeV>),
    Variable(Seq<char>),
    Polymorphic(Seq<Seq<char>>, Box<TypeV>),
}

/// The mathematical model of a `TypeConstructor`.
pub enum ConstructorV {
    Bool,
    Float,
    Int,
    Str,
    Void,
    Arrow,
    Array(Box<TypeV>),
    Record(Seq<(Seq<char>, TypeV)>),
    FunctionType(Seq<Seq<char>>, Box<TypeV>),
    Unique(Box<ConstructorV>),
}

/// The characters of each name.
pub open spec fn names_view(s: Seq<String>) -> Seq<Seq<char>> {
    Seq::new(s.len(), |i: int| s[i]@)
}

/// The model of a type.
pub open spec fn ty_view(t: Type) -> TypeV
    decreases t,
{
    match t {
        Type::Apply(c, args) => TypeV::Apply(tc_view(c), tys_view(args@)),
        Type::Variable(x) => TypeV::Variable(x@),
        Type::PolymorphicType(fs, body) => TypeV::Polymorphic(names_view(fs@), Box::new(ty_view(*body))),
    }
}

/// The models of a sequence of types.
pub open spec fn tys_view(s: Seq<Type>) -> Seq<TypeV>
    decreases s,
{
    if s.len() == 0 {
        Seq::empty()
    } else {
        tys_view(s.drop_last()).push(ty_view(s.last()))
    }
}

/// The models of a sequence of record fields.
pub open spec fn fields_view(s: Seq<(Identifier, Type)>) -> Seq<(Seq<char>, TypeV)>
    decreases s,
{
    if s.len() == 0 {
        Seq::empty()
    } else {
        fields_view(s.drop_last()).push((s.last().0@, ty_view(s.last().1)))
    }
}

/// The model of a type constructor.
pub open spec fn tc_view(c: TypeConstructor) -> ConstructorV
    decreases c,
{
    match c {
        TypeConstructor::Bool => ConstructorV::Bool,
        TypeConstructor::Float => ConstructorV::Float,
        TypeConstructor::Int => ConstructorV::Int,
        TypeConstructor::String => ConstructorV::Str,
        TypeConstructor::Void => ConstructorV::Void,
        TypeConstructor::Arrow => ConstructorV::Arrow,
        TypeConstructor::Array(t) => ConstructorV::Array(Box::new(ty_view(*t))),
        TypeConstructor::Record(fields) => ConstructorV::Record(fields_view(fields@)),
        TypeConstructor::FunctionType(fs, body) => ConstructorV::FunctionType(
            names_view(fs@),
            Box::new(ty_view(*body)),
        ),
        TypeConstructor::Unique(c) => ConstructorV::Unique(Box::new(tc_view(*c))),
    }
}

impl View for Type {
    type V = TypeV;

    open spec fn view(&self) -> TypeV {
        ty_view(*self)
    }
}

impl View for TypeConstructor {
    type V = ConstructorV;

    open spec fn view(&self) -> ConstructorV {
        tc_view(*self)
    }
}

/// `tys_view` maps each element by `ty_view`.
pub proof fn lemma_tys_view(s: Seq<Type>)
    ensures
        tys_view(s).len() == s.len(),
        forall|i: int| 0 <= i < s.len() ==> #[trigger] tys_view(s)[i] == ty_view(s[i]),
    decreases s.len(),
{
    if s.len() > 0 {
        lemma_tys_view(s.drop_last());
    }
}

/// `fields_view` maps each element by its name's characters and its type's model.
pub proof fn lemma_fields_view(s: Seq<(Identifier, Type)>)
    ensures
        fields_view(s).len() == s.len(),
        forall|i: int|
            0 <= i < s.len() ==> #[trigger] fields_view(s)[i] == (s[i].0@, ty_view(s[i].1)),
    decreases s.len(),
{
    if s.len() > 0 {
        lemma_fields_view(s.drop_last());
    }
}

/// Copies a list of names.
pub fn clone_names(v: &Vec<Identifier>) -> (r: Vec<Identifier>)
    ensures
        names_view(r@) == names_view(v@),
        r@ == v@,
{
    let mut r: Vec<Identifier> = Vec::new();
    let mut i: usize = 0;
    while i < v.len()
        invariant
            i <= v.len(),
            r@ == v@.take(i as int),
        decreases v.len() - i,
    {
        r.push(v[i].clone());
        i += 1;
    }
    assert(v@.take(v.len() as int) =~= v@);
    r
}

impl Type {
    /// A copy of the type with the same model.
    pub fn duplicate(&self) -> (r: Type)
        ensures
            r@ == self@,
        decreases self,
    {
        match self {
            Type::Apply(c, args) => {
                let c2 = c.duplicate();
                let args2 = duplicate_types(args);
                Type::Apply(c2, args2)
            },
            Type::Variable(x) => Type::Variable(x.clone()),
            Type::PolymorphicType(fs, body) => {
                let fs2 = clone_names(fs);
                let b2 = body.duplicate();
                Type::PolymorphicType(fs2, Box::new(b2))
            },
        }
    }
}

impl TypeConstructor {
    /// A copy of the constructor with the same model.
    pub fn duplicate(&self) -> (r: TypeConstructor)
        ensures
            r@ == self@,
        decreases self,
    {
        match self {
            TypeConstructor::Bool => TypeConstructor::Bool,
            TypeConstructor::Float => TypeConstructor::Float,
            TypeConstructor::Int => TypeConstructor::Int,
            TypeConstructor::String => TypeConstructor::String,
            TypeConstructor::Void => TypeConstructor::Void,
            TypeConstructor::Arrow => TypeConstructor::Arrow,
            TypeConstructor::Array(t) => TypeConstructor::Array(Box::new(t.duplicate())),
            TypeConstructor::Record(fields) => TypeConstructor::Record(duplicate_fields(fields)),
            TypeConstructor::FunctionType(fs, body) => TypeConstructor::FunctionType(
                clone_names(fs),
                Box::new(body.duplicate()),
            ),
            TypeConstructor::Unique(c) => TypeConstructor::Unique(Box::new(c.duplicate())),
        }
    }
}

/// Copies a list of types.
pub fn duplicate_types(v: &Vec<Type>) -> (r: Vec<Type>)
    ensures
        tys_view(r@) == tys_view(v@),
    decreases v,
{
    let mut r: Vec<Type> = Vec::new();
    let mut i: usize = 0;
    while i < v.len()
        invariant
            i <= v.len(),
            tys_view(r@) == tys_view(v@.take(i as int)),
        decreases v.len() - i,
    {
        assert(v@.take(i + 1).drop_last() =~= v@.take(i as int));
        let t = v[i].duplicate();
        let ghost r0 = r@;
        r.push(t);
        assert(r@.drop_last() =~= r0);
        i += 1;
    }
    assert(v@.take(v.len() as int) =~= v@);
    r
}

/// Copies a list of record fields.
pub fn duplicate_fields(v: &Vec<(Identifier, Type)>) -> (r: Vec<(Identifier, Type)>)
    ensures
        fields_view(r@) == fields_view(v@),
    decreases v,
{
    let mut r: Vec<(Identifier, Type)> = Vec::new();
    let mut i: usize = 0;
    while i < v.len()
        invariant
            i <= v.len(),
            fields_view(r@) == fields_view(v@.take(i as int)),
        decreases v.len() - i,
    {
        assert(v@.take(i + 1).drop_last() =~= v@.take(i as int));
        let name = v[i].0.clone();
        let t = v[i].1.duplicate();
        let ghost r0 = r@;
        r.push((name, t));
        assert(r@.drop_last() =~= r0);
        i += 1;
    }
    assert(v@.take(v.len() as int) =~= v@);
    r
}

impl TypeConstructor {
    /// The fields of a record constructor.
    pub fn get_record_fields(&self) -> (r: Vec<(Identifier, Type)>)
        requires
            self is Record,
        ensures
            ConstructorV::Record(fields_view(r@)) == self@,
    {
        match self {
            TypeConstructor::Record(fields) => duplicate_fields(fields),
            _ => Vec::new(),
        }
    }
}

impl Type {
    /// The fields of an applied record type.
    pub fn get_record_fields(&self) -> (r: Vec<(Identifier, Type)>)
        requires
            self matches Type::Apply(c, _) && c is Record,
        ensures
            self@ matches TypeV::Apply(c, _) && c == ConstructorV::Record(fields_view(r@)),
    {
        match self {
            Type::Apply(constructor, _) => constructor.get_record_fields(),
            _ => Vec::new(),
        }
    }
}

} // verus!
