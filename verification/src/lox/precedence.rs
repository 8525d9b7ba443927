//! The precedence levels of the bytecode compiler's operators.
use vstd::prelude::*;

verus! {

/// Precedence levels, from the loosest to the tightest.
#[derive(Clone, Copy, Debug, PartialEq, Eq, Structural)]
pub enum Precedence {
    PrecedenceNone,
    PrecedenceAssignment,
    PrecedenceOr,
    PrecedenceAnd,
    PrecedenceEquality,
    PrecedenceComparison,
    PrecedenceTerm,
    PrecedenceFactor,
    PrecedenceUnary,
    PrecedenceCall,
    PrecedencePrimary,
}

/// The position of a level, from 0 for the loosest.
pub open spec fn precedence_rank(p: Precedence) -> nat {
    match p {
        Precedence::PrecedenceNone => 0,
        Precedence::PrecedenceAssignment => 1,
        Precedence::PrecedenceOr => 2,
        Precedence::PrecedenceAnd => 3,
        Precedence::PrecedenceEquality => 4,
        Precedence::PrecedenceComparison => 5,
        Precedence::PrecedenceTerm => 6,
        Precedence::PrecedenceFactor => 7,
        Precedence::PrecedenceUnary => 8,
        Precedence::PrecedenceCall => 9,
        Precedence::PrecedencePrimary => 10,
    }
}

impl Precedence {
    /// The position of the level, from 0 for the loosest.
    pub fn rank(&self) -> (r: u8)
        ensures
            r == precedence_rank(*self),
    {
        match self {
            Precedence::PrecedenceNone => 0,
            Precedence::PrecedenceAssignment => 1,
            Precedence::PrecedenceOr => 2,
            Precedence::PrecedenceAnd => 3,
            Precedence::PrecedenceEquality => 4,
            Precedence::PrecedenceComparison => 5,
            Precedence::PrecedenceTerm => 6,
            Precedence::PrecedenceFactor => 7,
            Precedence::PrecedenceUnary => 8,
            Precedence::PrecedenceCall => 9,
            Precedence::PrecedencePrimary => 10,
        }
    }

    /// The level at the given position; `None` past the tightest.
    pub fn from_u8(n: u8) -> (r: Option<Precedence>)
        ensures
            n <= 10 ==> (r matches Some(p) && precedence_rank(p) == n),
            n > 10 ==> r is None,
    {
        match n {
            0 => Some(Precedence::PrecedenceNone),
            1 => Some(Precedence::PrecedenceAssignment),
            2 => Some(Precedence::PrecedenceOr),
            3 => Some(Precedence::PrecedenceAnd),
            4 => Some(Precedence::PrecedenceEquality),
            5 => Some(Precedence::PrecedenceComparison),
            6 => Some(Precedence::PrecedenceTerm),
            7 => Some(Precedence::PrecedenceFactor),
            8 => Some(Precedence::PrecedenceUnary),
            9 => Some(Precedence::PrecedenceCall),
            10 => Some(Precedence::PrecedencePrimary),
            _ => None,
        }
    }

    /// Whether this level binds at most as tightly as `other`.
    pub fn at_most(&self, other: &Precedence) -> (r: bool)
        ensures
            r == (precedence_rank(*self) <= precedence_rank(*other)),
    {
        self.rank() <= other.rank()
    }
}

/// Each level is found again from its position.
pub proof fn lemma_rank_round_trip(p: Precedence)
    ensures
        precedence_rank(p) <= 10,
        forall|q: Precedence| precedence_rank(q) == precedence_rank(p) ==> q == p,
{
}

} // verus!
