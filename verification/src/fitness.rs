//! The two-level order on `(penalty, cost)` pairs.

use vstd::prelude::*;

verus! {

/// Largest value of a penalty or a cost: the fitness of "no tour yet".
pub const PLUS_INFINITY: i64 = 9223372036854775807i64;

/// Smallest value of a penalty or a cost: the bound of an unknown optimum.
pub const MINUS_INFINITY: i64 = -9223372036854775808i64;

/// How good a tour is: its constraint violation first, its objective value
/// second. A penalty of zero means that the tour is feasible.
#[derive(Clone, Copy, Debug, PartialEq, Eq, Structural)]
pub struct Fitness {
    pub penalty: i64,
    pub cost: i64,
}

impl Fitness {
    /// `self` is strictly better than `other`: a lower penalty, or the same
    /// penalty and a lower cost.
    pub open spec fn smaller(self, other: Fitness) -> bool {
        self.penalty < other.penalty || (self.penalty == other.penalty && self.cost < other.cost)
    }

    /// `self` is strictly worse than `other`: a higher penalty, or the same
    /// penalty and a higher cost.
    pub open spec fn larger(self, other: Fitness) -> bool {
        self.penalty > other.penalty || (self.penalty == other.penalty && self.cost > other.cost)
    }

    /// The fitness of a tour of this penalty and this cost.
    pub fn new(penalty: i64, cost: i64) -> (f: Fitness)
        ensures
            f.penalty == penalty,
            f.cost == cost,
    {
        Fitness { penalty, cost }
    }

    /// Whether `self` is strictly better than `other`.
    pub fn is_smaller(&self, other: &Fitness) -> (r: bool)
        ensures
            r == self.smaller(*other),
    {
        smaller_fitness(self.penalty, self.cost, other.penalty, other.cost)
    }

    /// Whether `self` is strictly worse than `other`.
    pub fn is_larger(&self, other: &Fitness) -> (r: bool)
        ensures
            r == self.larger(*other),
    {
        larger_fitness(self.penalty, self.cost, other.penalty, other.cost)
    }
}

/// Whether `(penalty, cost)` is strictly better than
/// `(other_penalty, other_cost)`. Penalty dominates cost; equal pairs are
/// not smaller.
pub fn smaller_fitness(penalty: i64, cost: i64, other_penalty: i64, other_cost: i64) -> (r: bool)
    ensures
        r == (Fitness { penalty, cost }).smaller(Fitness { penalty: other_penalty, cost: other_cost }),
        r == (penalty < other_penalty || (penalty == other_penalty && cost < other_cost)),
{
    penalty < other_penalty || (penalty == other_penalty && cost < other_cost)
}

/// Whether `(penalty, cost)` is strictly worse than
/// `(other_penalty, other_cost)`. Penalty dominates cost; equal pairs are
/// not larger.
pub fn larger_fitness(penalty: i64, cost: i64, other_penalty: i64, other_cost: i64) -> (r: bool)
    ensures
        r == (Fitness { penalty, cost }).larger(Fitness { penalty: other_penalty, cost: other_cost }),
        r == (penalty > other_penalty || (penalty == other_penalty && cost > other_cost)),
{
    penalty > other_penalty || (penalty == other_penalty && cost > other_cost)
}

/// Being smaller is transitive.
pub proof fn lemma_smaller_transitive(a: Fitness, b: Fitness, c: Fitness)
    requires
        a.smaller(b),
        b.smaller(c),
    ensures
        a.smaller(c),
{
}

/// Being smaller is asymmetric, hence irreflexive.
pub proof fn lemma_smaller_asymmetric(a: Fitness, b: Fitness)
    requires
        a.smaller(b),
    ensures
        !b.smaller(a),
        a != b,
{
}

/// No pair is both smaller and larger than another.
pub proof fn lemma_smaller_excludes_larger(a: Fitness, b: Fitness)
    ensures
        !(a.smaller(b) && a.larger(b)),
{
}

/// Larger is smaller with the sides exchanged.
pub proof fn lemma_larger_is_dual(a: Fitness, b: Fitness)
    ensures
        a.larger(b) == b.smaller(a),
{
}

/// Two pairs of which neither is smaller are the same pair: of any two
/// fitnesses exactly one of smaller, equal and larger holds.
pub proof fn lemma_trichotomy(a: Fitness, b: Fitness)
    ensures
        (!a.smaller(b) && !b.smaller(a)) == (a == b),
        a.smaller(b) || a == b || a.larger(b),
{
}

/// Not being smaller is transitive, which with the two laws above makes
/// the order a strict weak ordering.
pub proof fn lemma_not_smaller_transitive(a: Fitness, b: Fitness, c: Fitness)
    requires
        !a.smaller(b),
        !b.smaller(c),
    ensures
        !a.smaller(c),
{
}

} // verus!
