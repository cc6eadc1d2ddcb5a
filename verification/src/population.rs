//! The bounded population of tours, kept ranked from best to worst.

use vstd::prelude::*;
use crate::fitness::{larger_fitness, smaller_fitness, Fitness};

verus! {

/// One member of the population: a tour, given as the identifiers of its
/// nodes in the order of the tour, with its penalty and its cost.
#[derive(Debug)]
pub struct Individual {
    pub penalty: i64,
    pub cost: i64,
    pub tour: Vec<usize>,
}

/// What an individual is: a fitness and a sequence of node identifiers.
pub struct IndividualView {
    pub fitness: Fitness,
    pub tour: Seq<usize>,
}

impl View for Individual {
    type V = IndividualView;

    open spec fn view(&self) -> IndividualView {
        IndividualView {
            fitness: Fitness { penalty: self.penalty, cost: self.cost },
            tour: self.tour@,
        }
    }
}

impl Individual {
    /// The tour `tour` with its fitness.
    pub fn new(penalty: i64, cost: i64, tour: Vec<usize>) -> (m: Individual)
        ensures
            m@ == (IndividualView { fitness: Fitness { penalty, cost }, tour: tour@ }),
    {
        Individual { penalty, cost, tour }
    }

    /// The fitness of this individual.
    pub fn fitness(&self) -> (f: Fitness)
        ensures
            f == self@.fitness,
    {
        Fitness { penalty: self.penalty, cost: self.cost }
    }

    /// A copy of this individual.
    pub fn snapshot(&self) -> (m: Individual)
        ensures
            m@ == self@,
    {
        let mut tour: Vec<usize> = Vec::new();
        let mut i: usize = 0;
        while i < self.tour.len()
            invariant
                i <= self.tour.len(),
                tour@ == self.tour@.subrange(0, i as int),
            decreases self.tour.len() - i,
        {
            tour.push(self.tour[i]);
            i += 1;
            assert(tour@ =~= self.tour@.subrange(0, i as int));
        }
        assert(tour@ =~= self.tour@);
        Individual { penalty: self.penalty, cost: self.cost, tour }
    }
}

/// No member is strictly better than one that stands before it.
pub open spec fn ranked(s: Seq<IndividualView>) -> bool {
    forall|i: int, j: int| 0 <= i < j < s.len() ==> !(#[trigger] s[j]).fitness.smaller((#[trigger] s[i]).fitness)
}

/// Some member has exactly the fitness `f`.
pub open spec fn contains_fitness(s: Seq<IndividualView>, f: Fitness) -> bool {
    exists|i: int| 0 <= i < s.len() && (#[trigger] s[i]).fitness == f
}

/// `k` is where a newcomer of fitness `f` enters the ranked sequence `s`:
/// behind every member that is not worse than it, before every member that
/// is.
pub open spec fn entry_point(s: Seq<IndividualView>, f: Fitness, k: int) -> bool {
    &&& 0 <= k <= s.len()
    &&& forall|j: int| 0 <= j < k ==> !f.smaller((#[trigger] s[j]).fitness)
    &&& forall|j: int| k <= j < s.len() ==> f.smaller((#[trigger] s[j]).fitness)
}

/// `r` is the member to give up: no member is worse than it, and every
/// member before it is strictly better.
pub open spec fn first_worst(s: Seq<IndividualView>, r: int) -> bool {
    &&& 0 <= r < s.len()
    &&& forall|j: int| 0 <= j < s.len() ==> !(#[trigger] s[j]).fitness.larger(s[r].fitness)
    &&& forall|j: int| 0 <= j < r ==> (#[trigger] s[j]).fitness.smaller(s[r].fitness)
}

/// `after` follows `before` by the entry of `m`.
pub open spec fn entered(before: Seq<IndividualView>, after: Seq<IndividualView>, m: IndividualView) -> bool {
    exists|k: int| #[trigger] entry_point(before, m.fitness, k) && after == before.insert(k, m)
}

/// What became of a tour that was offered to the population.
#[derive(Clone, Copy, Debug, PartialEq, Eq, Structural)]
pub enum Admission {
    /// It was turned away, and the population is as it was.
    Unchanged,
    /// It entered, there being room.
    Added,
    /// It took the place of the member that had this rank.
    Replaced(usize),
}

/// `after` and `outcome` are what becomes of a population `before` of at
/// most `capacity` members when `m` is offered to it. A tour whose fitness
/// a member has already is turned away. Otherwise it enters where there is
/// room; where there is none it takes the place of the worst member if it
/// is strictly better than that one, and is turned away if it is not.
pub open spec fn admitted(
    before: Seq<IndividualView>,
    capacity: nat,
    after: Seq<IndividualView>,
    m: IndividualView,
    outcome: Admission,
) -> bool {
    match outcome {
        Admission::Unchanged => {
            &&& after == before
            &&& contains_fitness(before, m.fitness) || (before.len() >= capacity && forall|r: int| #[trigger]
                first_worst(before, r) ==> !m.fitness.smaller(before[r].fitness))
        },
        Admission::Added => {
            &&& !contains_fitness(before, m.fitness)
            &&& before.len() < capacity
            &&& entered(before, after, m)
        },
        Admission::Replaced(r) => {
            &&& !contains_fitness(before, m.fitness)
            &&& before.len() >= capacity
            &&& first_worst(before, r as int)
            &&& m.fitness.smaller(before[r as int].fitness)
            &&& entered(before.remove(r as int), after, m)
        },
    }
}

/// A ranked collection of at most `max_size` individuals.
#[derive(Debug)]
pub struct Population {
    members: Vec<Individual>,
    max_size: usize,
}

impl View for Population {
    type V = Seq<IndividualView>;

    closed spec fn view(&self) -> Seq<IndividualView> {
        Seq::new(self.members@.len(), |i: int| self.members@[i]@)
    }
}

impl Population {
    /// The configured maximum number of members.
    pub closed spec fn capacity(&self) -> nat {
        self.max_size as nat
    }

    /// The population holds no more members than its maximum, best first.
    pub closed spec fn wf(&self) -> bool {
        &&& self.members@.len() <= self.max_size
        &&& ranked(self@)
    }

    /// An empty population that can hold `max_size` members.
    pub fn new(max_size: usize) -> (p: Population)
        ensures
            p.wf(),
            p@ == Seq::<IndividualView>::empty(),
            p.capacity() == max_size,
    {
        let p = Population { members: Vec::new(), max_size };
        assert(p@ =~= Seq::<IndividualView>::empty());
        p
    }

    /// The number of members.
    pub fn len(&self) -> (n: usize)
        ensures
            n == self@.len(),
    {
        self.members.len()
    }

    /// The configured maximum number of members.
    pub fn max_size(&self) -> (n: usize)
        ensures
            n == self.capacity(),
    {
        self.max_size
    }

    /// Whether no further member can be added.
    pub fn is_full(&self) -> (r: bool)
        ensures
            r == (self@.len() >= self.capacity()),
    {
        self.members.len() >= self.max_size
    }

    /// The member of rank `i`, the best being of rank zero.
    pub fn member(&self, i: usize) -> (m: &Individual)
        requires
            i < self@.len(),
        ensures
            m@ == self@[i as int],
    {
        &self.members[i]
    }

    /// The fitness of the member of rank `i`.
    pub fn fitness(&self, i: usize) -> (f: Fitness)
        requires
            i < self@.len(),
        ensures
            f == self@[i as int].fitness,
    {
        self.members[i].fitness()
    }

    /// Whether some member has exactly this penalty and this cost.
    pub fn has_fitness(&self, penalty: i64, cost: i64) -> (r: bool)
        ensures
            r == contains_fitness(self@, Fitness { penalty, cost }),
    {
        let mut i: usize = 0;
        while i < self.members.len()
            invariant
                i <= self.members@.len(),
                forall|j: int| 0 <= j < i ==> (#[trigger] self@[j]).fitness != (Fitness { penalty, cost }),
            decreases self.members.len() - i,
        {
            if self.members[i].penalty == penalty && self.members[i].cost == cost {
                assert(self@[i as int].fitness == (Fitness { penalty, cost }));
                return true;
            }
            i += 1;
        }
        false
    }

    /// Puts `member` at its entry point.
    fn place(&mut self, member: Individual)
        requires
            ranked(old(self)@),
        ensures
            final(self).max_size == old(self).max_size,
            ranked(final(self)@),
            exists|k: int| #[trigger]
                entry_point(old(self)@, member@.fitness, k)
                && final(self)@ == old(self)@.insert(k, member@),
    {
        let mut k: usize = self.members.len();
        while k > 0 && smaller_fitness(
            member.penalty,
            member.cost,
            self.members[k - 1].penalty,
            self.members[k - 1].cost,
        )
            invariant
                k <= self.members@.len(),
                forall|j: int|
                    k <= j < self@.len() ==> member@.fitness.smaller((#[trigger] self@[j]).fitness),
            decreases k,
        {
            k -= 1;
        }
        let ghost before = self@;
        let ghost f = member@.fitness;
        let ghost entrant = member@;
        proof {
            assert forall|j: int| 0 <= j < k implies !f.smaller((#[trigger] before[j]).fitness) by {
                if k > 0 {
                    assert(!f.smaller(before[k - 1].fitness));
                    assert(!before[k - 1].fitness.smaller(before[j].fitness));
                }
            }
            assert(entry_point(before, f, k as int));
        }
        self.members.insert(k, member);
        proof {
            assert(self@ =~= before.insert(k as int, entrant));
            assert forall|i: int, j: int| 0 <= i < j < self@.len() implies !(#[trigger] self@[j]).fitness.smaller(
                (#[trigger] self@[i]).fitness,
            ) by {
                let a = if i < k { i } else { i - 1 };
                let b = if j < k { j } else { j - 1 };
                if i != k && j != k {
                    assert(self@[i] == before[a]);
                    assert(self@[j] == before[b]);
                } else if i == k {
                    assert(self@[j] == before[b]);
                    assert(f.smaller(before[b].fitness));
                } else {
                    assert(self@[i] == before[a]);
                    assert(!f.smaller(before[a].fitness));
                }
            }
        }
    }

    /// Adds the tour `tour`, of fitness `(penalty, cost)`, to a population
    /// that is not full. It enters behind the members that are not worse
    /// than it, so that the population stays ranked.
    pub fn add_to_population(&mut self, penalty: i64, cost: i64, tour: Vec<usize>)
        requires
            old(self).wf(),
            old(self)@.len() < old(self).capacity(),
        ensures
            final(self).wf(),
            final(self).capacity() == old(self).capacity(),
            final(self)@.len() == old(self)@.len() + 1,
            exists|k: int| #[trigger]
                entry_point(old(self)@, Fitness { penalty, cost }, k)
                && final(self)@ == old(self)@.insert(
                    k,
                    IndividualView { fitness: Fitness { penalty, cost }, tour: tour@ },
                ),
            contains_fitness(final(self)@, Fitness { penalty, cost }),
    {
        let ghost before = self@;
        let ghost entrant = IndividualView { fitness: Fitness { penalty, cost }, tour: tour@ };
        assert(before.len() == self.members@.len());
        self.place(Individual { penalty, cost, tour });
        proof {
            let k = choose|k: int| #[trigger]
                entry_point(before, entrant.fitness, k) && self@ == before.insert(k, entrant);
            assert(self@[k] == entrant);
            assert(self@.len() == self.members@.len());
        }
    }

    /// The rank of the member to give up for a newcomer: the worst member,
    /// and among several equally bad ones the first. The newcomer's fitness
    /// has no part in the choice.
    #[allow(unused_variables)]
    pub fn replacement_individual(&self, penalty: i64, cost: i64) -> (r: usize)
        requires
            self@.len() > 0,
        ensures
            first_worst(self@, r as int),
    {
        let mut r: usize = 0;
        let mut i: usize = 1;
        while i < self.members.len()
            invariant
                1 <= i <= self.members@.len(),
                r < i,
                forall|j: int| 0 <= j < i ==> !(#[trigger] self@[j]).fitness.larger(self@[r as int].fitness),
                forall|j: int| 0 <= j < r ==> (#[trigger] self@[j]).fitness.smaller(self@[r as int].fitness),
            decreases self.members.len() - i,
        {
            if larger_fitness(
                self.members[i].penalty,
                self.members[i].cost,
                self.members[r].penalty,
                self.members[r].cost,
            ) {
                r = i;
            }
            i += 1;
        }
        r
    }

    /// Gives up the member of rank `index` and takes in the tour `tour`, of
    /// fitness `(penalty, cost)`, at its entry point among the others.
    pub fn replace_individual_with_tour(&mut self, index: usize, penalty: i64, cost: i64, tour: Vec<usize>)
        requires
            old(self).wf(),
            index < old(self)@.len(),
        ensures
            final(self).wf(),
            final(self).capacity() == old(self).capacity(),
            final(self)@.len() == old(self)@.len(),
            exists|k: int| #[trigger]
                entry_point(old(self)@.remove(index as int), Fitness { penalty, cost }, k)
                && final(self)@ == old(self)@.remove(index as int).insert(
                    k,
                    IndividualView { fitness: Fitness { penalty, cost }, tour: tour@ },
                ),
            contains_fitness(final(self)@, Fitness { penalty, cost }),
    {
        let ghost before = self@;
        let ghost entrant = IndividualView { fitness: Fitness { penalty, cost }, tour: tour@ };
        self.members.remove(index);
        proof {
            assert(self@ =~= before.remove(index as int));
            assert forall|i: int, j: int| 0 <= i < j < self@.len() implies !(#[trigger] self@[j]).fitness.smaller(
                (#[trigger] self@[i]).fitness,
            ) by {
                let a = if i < index { i } else { i + 1 };
                let b = if j < index { j } else { j + 1 };
                assert(self@[i] == before[a]);
                assert(self@[j] == before[b]);
            }
        }
        let ghost rest = self@;
        self.place(Individual { penalty, cost, tour });
        proof {
            let k = choose|k: int| #[trigger]
                entry_point(rest, entrant.fitness, k) && self@ == rest.insert(k, entrant);
            assert(self@[k] == entrant);
            assert(self@.len() == self.members@.len());
        }
    }

    /// Offers the tour `tour`, of fitness `(penalty, cost)`, to the
    /// population, and says what became of it.
    pub fn offer(&mut self, penalty: i64, cost: i64, tour: Vec<usize>) -> (outcome: Admission)
        requires
            old(self).wf(),
        ensures
            final(self).wf(),
            final(self).capacity() == old(self).capacity(),
            admitted(
                old(self)@,
                old(self).capacity(),
                final(self)@,
                IndividualView { fitness: Fitness { penalty, cost }, tour: tour@ },
                outcome,
            ),
            old(self)@.len() <= final(self)@.len() <= old(self)@.len() + 1,
            final(self)@.len() <= final(self).capacity(),
            !(outcome is Unchanged) ==> contains_fitness(final(self)@, Fitness { penalty, cost }),
    {
        let ghost before = self@;
        assert(before.len() == self.members@.len());
        if self.has_fitness(penalty, cost) {
            return Admission::Unchanged;
        }
        if self.members.len() < self.max_size {
            self.add_to_population(penalty, cost, tour);
            return Admission::Added;
        }
        if self.members.len() == 0 {
            return Admission::Unchanged;
        }
        let r: usize = self.replacement_individual(penalty, cost);
        proof {
            lemma_first_worst_is_one(before);
        }
        assert(before[r as int].fitness == self.members@[r as int]@.fitness);
        if smaller_fitness(penalty, cost, self.members[r].penalty, self.members[r].cost) {
            self.replace_individual_with_tour(r, penalty, cost, tour);
            Admission::Replaced(r)
        } else {
            Admission::Unchanged
        }
    }
}

/// Only one member is the first of the worst.
pub proof fn lemma_first_worst_is_one(s: Seq<IndividualView>)
    ensures
        forall|q: int, r: int| #[trigger] first_worst(s, q) && #[trigger] first_worst(s, r) ==> q == r,
{
    assert forall|q: int, r: int| #[trigger] first_worst(s, q) && #[trigger] first_worst(s, r) implies q
        == r by {
        if q < r {
            assert(s[q].fitness.smaller(s[r].fitness));
            assert(!s[r].fitness.larger(s[q].fitness));
        } else if r < q {
            assert(s[r].fitness.smaller(s[q].fitness));
            assert(!s[q].fitness.larger(s[r].fitness));
        }
    }
}

/// A newcomer has only one entry point.
pub proof fn lemma_entry_point_is_one(s: Seq<IndividualView>, f: Fitness, j: int, k: int)
    requires
        entry_point(s, f, j),
        entry_point(s, f, k),
    ensures
        j == k,
{
    if j < k {
        assert(f.smaller(s[j].fitness));
    } else if k < j {
        assert(f.smaller(s[k].fitness));
    }
}

/// What becomes of a population and of a tour offered to it depends on
/// nothing but the two.
pub proof fn lemma_admission_is_determined(
    before: Seq<IndividualView>,
    capacity: nat,
    m: IndividualView,
    first: Seq<IndividualView>,
    a: Admission,
    second: Seq<IndividualView>,
    b: Admission,
)
    requires
        admitted(before, capacity, first, m, a),
        admitted(before, capacity, second, m, b),
    ensures
        first == second,
        a == b,
{
    lemma_first_worst_is_one(before);
    match (a, b) {
        (Admission::Added, Admission::Added) => {
            let j = choose|j: int| #[trigger] entry_point(before, m.fitness, j) && first == before.insert(j, m);
            let k = choose|k: int| #[trigger]
                entry_point(before, m.fitness, k) && second == before.insert(k, m);
            lemma_entry_point_is_one(before, m.fitness, j, k);
        },
        (Admission::Replaced(q), Admission::Replaced(r)) => {
            assert(q == r);
            let rest = before.remove(r as int);
            let j = choose|j: int| #[trigger] entry_point(rest, m.fitness, j) && first == rest.insert(j, m);
            let k = choose|k: int| #[trigger] entry_point(rest, m.fitness, k) && second == rest.insert(k, m);
            lemma_entry_point_is_one(rest, m.fitness, j, k);
        },
        (Admission::Replaced(q), Admission::Unchanged) => {
            assert(first_worst(before, q as int));
        },
        (Admission::Unchanged, Admission::Replaced(r)) => {
            assert(first_worst(before, r as int));
        },
        _ => {},
    }
}

/// The member to give up is not strictly better than every other member.
pub proof fn lemma_replacement_is_not_best(s: Seq<IndividualView>, r: int)
    requires
        first_worst(s, r),
        s.len() >= 2,
    ensures
        exists|j: int| 0 <= j < s.len() && j != r && !s[r].fitness.smaller((#[trigger] s[j]).fitness),
{
    let j = if r == 0 { 1 } else { 0int };
    assert(!s[j].fitness.larger(s[r].fitness));
}

/// A population never holds more members than its maximum.
pub proof fn lemma_population_bounded(p: Population)
    requires
        p.wf(),
    ensures
        p@.len() <= p.capacity(),
{
}

/// After a newcomer has entered, exactly its fitness and the fitnesses
/// that were there before are found.
pub proof fn lemma_fitness_after_entry(s: Seq<IndividualView>, k: int, m: IndividualView, f: Fitness)
    requires
        0 <= k <= s.len(),
    ensures
        contains_fitness(s.insert(k, m), m.fitness),
        contains_fitness(s.insert(k, m), f) == (f == m.fitness || contains_fitness(s, f)),
{
    let t = s.insert(k, m);
    assert(t[k] == m);
    if contains_fitness(s, f) {
        let i = choose|i: int| 0 <= i < s.len() && (#[trigger] s[i]).fitness == f;
        let j = if i < k { i } else { i + 1 };
        assert(t[j] == s[i]);
    }
    if contains_fitness(t, f) && f != m.fitness {
        let j = choose|j: int| 0 <= j < t.len() && (#[trigger] t[j]).fitness == f;
        let i = if j < k { j } else { j - 1 };
        assert(t[j] == s[i]);
    }
}

} // verus!
