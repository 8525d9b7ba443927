//! Local variables of a scope.
use vstd::prelude::*;

verus! {

/// A local variable: its name and the depth of the scope that declares it.
#[derive(Clone, Debug)]
pub struct Local {
    pub name: String,
    pub depth: i32,
}

impl Local {
    /// A local with the given name at the given depth.
    pub fn new(name: String, depth: i32) -> (r: Self)
        ensures
            r.name@ == name@,
            r.depth == depth,
    {
        Local { name, depth }
    }
}

} // verus!
