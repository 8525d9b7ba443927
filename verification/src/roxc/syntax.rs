//! The syntax of the first version of the Rox compiler, whose names may
//! carry generic fields.
use vstd::prelude::*;

verus! {

broadcast use vstd::seq::group_seq_axioms, vstd::std_specs::vec::group_vec_axioms;

/// A name, possibly applied to generic names, such as `List<T>`.
#[derive(Debug)]
pub struct Identifier {
    name: String,
    generic_fields: Vec<Identifier>,
}

/// The model of an `Identifier`: its name and the models of its generic
/// fields.
pub enum IdentifierV {
    Named(Seq<char>, Seq<IdentifierV>),
}

/// The models of a list of identifiers.
pub open spec fn identifiers_view(s: Seq<Identifier>) -> Seq<IdentifierV>
    decreases s,
{
    if s.len() == 0 {
        Seq::empty()
    } else {
        identifiers_view(s.drop_last()).push(identifier_view(s.last()))
    }
}

/// The model of an identifier.
pub closed spec fn identifier_view(i: Identifier) -> IdentifierV
    decreases i,
{
    IdentifierV::Named(i.name@, identifiers_view(i.generic_fields@))
}

/// The models of a list of identifiers are the model of each, in order.
pub proof fn lemma_identifiers_view(s: Seq<Identifier>)
    ensures
        identifiers_view(s).len() == s.len(),
        forall|i: int| 0 <= i < s.len() ==> #[trigger] identifiers_view(s)[i] == s[i]@,
    decreases s.len(),
{
    if s.len() > 0 {
        lemma_identifiers_view(s.drop_last());
        assert forall|i: int| 0 <= i < s.len() implies #[trigger] identifiers_view(s)[i] == s[i]@ by {
            if i < s.len() - 1 {
                assert(s.drop_last()[i] == s[i]);
            }
        }
    }
}

impl View for Identifier {
    type V = IdentifierV;

    open spec fn view(&self) -> IdentifierV {
        identifier_view(*self)
    }
}

impl IdentifierV {
    /// The name.
    pub open spec fn name(self) -> Seq<char> {
        match self {
            IdentifierV::Named(n, _) => n,
        }
    }

    /// The generic fields.
    pub open spec fn generic_fields(self) -> Seq<IdentifierV> {
        match self {
            IdentifierV::Named(_, g) => g,
        }
    }
}

impl Identifier {
    /// An identifier with the given name and generic fields.
    pub fn new(name: String, generic_fields: Vec<Identifier>) -> (r: Self)
        ensures
            r@.name() == name@,
            r@.generic_fields() == identifiers_view(generic_fields@),
    {
        Identifier { name, generic_fields }
    }

    /// An identifier with the given name and no generic fields.
    pub fn new_non_generic(name: String) -> (r: Self)
        ensures
            r@.name() == name@,
            r@.generic_fields() == Seq::<IdentifierV>::empty(),
    {
        let r = Identifier::new(name, Vec::new());
        assert(r@.generic_fields() =~= Seq::<IdentifierV>::empty());
        r
    }

    /// A copy of the name.
    pub fn get_name(&self) -> (r: String)
        ensures
            r@ == self@.name(),
    {
        self.name.clone()
    }

    /// The generic fields.
    pub fn get_generic_fields(&self) -> (r: &Vec<Identifier>)
        ensures
            identifiers_view(r@) == self@.generic_fields(),
    {
        &self.generic_fields
    }
}

/// A parameter: its name and the name of its type.
pub type Param = (Identifier, Identifier);

/// A binary operator.
#[derive(Clone, Copy, Debug, PartialEq, Eq, Structural)]
pub enum Operation {
    Equals,
    NotEquals,
    GreaterThan,
    LessThan,
    Add,
    Subtract,
    Multiply,
    Divide,
}

/// A unary operator.
#[derive(Clone, Copy, Debug, PartialEq, Eq, Structural)]
pub enum Unary {
    Not,
    Negate,
}

/// The types of the first version of the language.
#[derive(Clone, Copy, Debug, PartialEq, Eq, Structural)]
pub enum RoxType {
    Void,
    Bool,
    Number,
    String,
    Array,
}

/// The signature of a function: its name, its parameters and the name of
/// its return type, if it has one.
#[derive(Debug)]
pub struct FunctionDeclaration {
    pub name: Identifier,
    pub params: Vec<Param>,
    pub return_type: Option<Identifier>,
}

} // verus!
