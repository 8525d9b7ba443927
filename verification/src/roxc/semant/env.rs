//! Environments that map names to types, as the type checker uses them
//! for type names and for variables.
use vstd::prelude::*;
use crate::roxc::semant::types::{
    duplicate_fields, fields_view, lemma_fields_view, lemma_tys_view, names_view, ty_view, tys_view,
    Identifier, Type, TypeV,
};

verus! {

broadcast use vstd::seq::group_seq_axioms, vstd::std_specs::vec::group_vec_axioms;

/// The map that a list of (name, type) entries denotes: a later entry for
/// a name replaces an earlier one.
pub open spec fn entries_map(s: Seq<(Seq<char>, TypeV)>) -> Map<Seq<char>, TypeV>
    decreases s.len(),
{
    if s.len() == 0 {
        Map::empty()
    } else {
        entries_map(s.drop_last()).insert(s.last().0, s.last().1)
    }
}

/// The map that pairs the first `n` names with the first `n` types, a later
/// name replacing an earlier equal one.
pub open spec fn zip_prefix(ns: Seq<Seq<char>>, ts: Seq<TypeV>, n: int) -> Map<Seq<char>, TypeV>
    decreases n,
{
    if n <= 0 {
        Map::empty()
    } else {
        zip_prefix(ns, ts, n - 1).insert(ns[n - 1], ts[n - 1])
    }
}

/// The map that pairs names with types, position by position, as far as
/// the shorter of the two lists goes.
pub open spec fn zip_map(ns: Seq<Seq<char>>, ts: Seq<TypeV>) -> Map<Seq<char>, TypeV> {
    zip_prefix(ns, ts, if ns.len() < ts.len() { ns.len() as int } else { ts.len() as int })
}

/// A name bound by a zipped map is bound to the type at the last position
/// that carries the name.
pub proof fn lemma_zip_prefix(ns: Seq<Seq<char>>, ts: Seq<TypeV>, n: int, k: Seq<char>)
    requires
        0 <= n <= ns.len(),
        n <= ts.len(),
    ensures
        zip_prefix(ns, ts, n).contains_key(k) <==> exists|j: int| 0 <= j < n && ns[j] == k,
        zip_prefix(ns, ts, n).contains_key(k) ==> exists|j: int|
            0 <= j < n && ns[j] == k && zip_prefix(ns, ts, n)[k] == ts[j] && forall|l: int|
                j < l < n ==> ns[l] != k,
    decreases n,
{
    if n > 0 {
        lemma_zip_prefix(ns, ts, n - 1, k);
        if ns[n - 1] == k {
            assert(zip_prefix(ns, ts, n)[k] == ts[n - 1]);
        } else {
            if zip_prefix(ns, ts, n).contains_key(k) {
                let j = choose|j: int|
                    0 <= j < n - 1 && ns[j] == k && zip_prefix(ns, ts, n - 1)[k] == ts[j] && forall|
                        l: int,
                    |
                        j < l < n - 1 ==> ns[l] != k;
                assert(0 <= j < n && ns[j] == k && zip_prefix(ns, ts, n)[k] == ts[j]);
            }
        }
    }
}

/// Zipping the same names with two lists of the same length binds the same
/// names, each to the value at the same position.
pub proof fn lemma_zip_prefix_pointwise(
    ns: Seq<Seq<char>>,
    ts: Seq<TypeV>,
    us: Seq<TypeV>,
    n: int,
    k: Seq<char>,
)
    requires
        0 <= n <= ns.len(),
        n <= ts.len(),
        n <= us.len(),
    ensures
        zip_prefix(ns, ts, n).contains_key(k) == zip_prefix(ns, us, n).contains_key(k),
        zip_prefix(ns, ts, n).contains_key(k) ==> exists|j: int|
            0 <= j < n && zip_prefix(ns, ts, n)[k] == ts[j] && zip_prefix(ns, us, n)[k] == us[j],
    decreases n,
{
    if n > 0 {
        lemma_zip_prefix_pointwise(ns, ts, us, n - 1, k);
        if ns[n - 1] != k && zip_prefix(ns, ts, n).contains_key(k) {
            let j = choose|j: int|
                0 <= j < n - 1 && zip_prefix(ns, ts, n - 1)[k] == ts[j] && zip_prefix(ns, us, n - 1)[k]
                    == us[j];
            assert(zip_prefix(ns, ts, n)[k] == ts[j] && zip_prefix(ns, us, n)[k] == us[j]);
        }
    }
}

/// A list of (name, type) entries whose meaning is the map of its entries,
/// the later entry for a name winning.
pub struct Env {
    entries: Vec<(Identifier, Type)>,
}

/// The environment of type names.
pub type TypeEnv = Env;

/// The environment of variables and functions.
pub type VariableEnv = Env;

impl View for Env {
    type V = Map<Seq<char>, TypeV>;

    closed spec fn view(&self) -> Map<Seq<char>, TypeV> {
        entries_map(fields_view(self.entries@))
    }
}

/// Looking a name up past entries that do not carry it gives the same
/// answer as looking it up in the entries before them.
proof fn lemma_entries_suffix(s: Seq<(Seq<char>, TypeV)>, i: int, k: Seq<char>)
    requires
        0 <= i <= s.len(),
        forall|j: int| i <= j < s.len() ==> s[j].0 != k,
    ensures
        entries_map(s).contains_key(k) == entries_map(s.take(i)).contains_key(k),
        entries_map(s).contains_key(k) ==> entries_map(s)[k] == entries_map(s.take(i))[k],
    decreases s.len() - i,
{
    if i < s.len() {
        lemma_entries_suffix(s.drop_last(), i, k);
        assert(s.drop_last().take(i) =~= s.take(i));
    } else {
        assert(s.take(i) =~= s);
    }
}

impl Env {
    /// An empty environment.
    pub fn new() -> (r: Env)
        ensures
            r@ == Map::<Seq<char>, TypeV>::empty(),
    {
        Env { entries: Vec::new() }
    }

    /// Binds `name` to `ty`, replacing an earlier binding of the name.
    pub fn insert(&mut self, name: Identifier, ty: Type)
        ensures
            final(self)@ == old(self)@.insert(name@, ty@),
    {
        let ghost s0 = self.entries@;
        let ghost k = name@;
        let ghost v = ty@;
        self.entries.push((name, ty));
        assert(self.entries@.drop_last() =~= s0);
        assert(fields_view(self.entries@) == fields_view(s0).push((k, v)));
        assert(fields_view(self.entries@).drop_last() =~= fields_view(s0));
    }

    /// The type bound to `name`, if any.
    pub fn get(&self, name: &Identifier) -> (r: Option<&Type>)
        ensures
            r is Some <==> self@.contains_key(name@),
            r is Some ==> r.unwrap()@ == self@[name@],
    {
        let ghost fv = fields_view(self.entries@);
        proof {
            lemma_fields_view(self.entries@);
        }
        let mut i: usize = self.entries.len();
        while i > 0
            invariant
                i <= self.entries.len(),
                fv == fields_view(self.entries@),
                fv.len() == self.entries@.len(),
                forall|j: int|
                    0 <= j < fv.len() ==> #[trigger] fv[j] == (
                        self.entries@[j].0@,
                        ty_view(self.entries@[j].1),
                    ),
                forall|j: int| i <= j < fv.len() ==> fv[j].0 != name@,
            decreases i,
        {
            if self.entries[i - 1].0 == *name {
                proof {
                    lemma_entries_suffix(fv, i as int, name@);
                    assert(fv.take(i as int).drop_last() =~= fv.take(i - 1));
                }
                return Some(&self.entries[i - 1].1);
            }
            i -= 1;
        }
        proof {
            lemma_entries_suffix(fv, 0, name@);
            assert(fv.take(0) =~= Seq::<(Seq<char>, TypeV)>::empty());
        }
        None
    }

    /// A copy of the environment with the same bindings.
    pub fn duplicate(&self) -> (r: Env)
        ensures
            r@ == self@,
    {
        Env { entries: duplicate_fields(&self.entries) }
    }
}

/// Pairs formal names with types, position by position.
pub fn zip_argument_types(names: Vec<Identifier>, types: Vec<Type>) -> (r: TypeEnv)
    ensures
        r@ == zip_map(names_view(names@), tys_view(types@)),
{
    let mut r = Env::new();
    let ghost ns = names_view(names@);
    let ghost ts = tys_view(types@);
    proof {
        lemma_tys_view(types@);
    }
    let n = if names.len() < types.len() {
        names.len()
    } else {
        types.len()
    };
    let mut i: usize = 0;
    while i < n
        invariant
            i <= n,
            n <= names.len(),
            n <= types.len(),
            n == (if ns.len() < ts.len() { ns.len() as int } else { ts.len() as int }),
            ns == names_view(names@),
            ts == tys_view(types@),
            ts.len() == types@.len(),
            forall|j: int| 0 <= j < types@.len() ==> #[trigger] ts[j] == ty_view(types@[j]),
            r@ == zip_prefix(ns, ts, i as int),
        decreases n - i,
    {
        r.insert(names[i].clone(), types[i].duplicate());
        i += 1;
    }
    r
}

/// Looking a name up right after binding it gives the type it was bound
/// to; the bindings of other names are unchanged.
pub proof fn lemma_insert_then_get(m: Map<Seq<char>, TypeV>, name: Seq<char>, ty: TypeV, other: Seq<char>)
    requires
        other != name,
    ensures
        m.insert(name, ty).contains_key(name),
        m.insert(name, ty)[name] == ty,
        m.insert(name, ty).contains_key(other) == m.contains_key(other),
        m.contains_key(other) ==> m.insert(name, ty)[other] == m[other],
{
}

} // verus!
