//! The run loop as a state machine: from the present state and what a
//! collaborator has handed in, to the next state and what to ask for next.

use vstd::prelude::*;
use crate::fitness::{Fitness, PLUS_INFINITY};
use crate::selection::{linear_selection, lemma_selection_is_one, selects, Bias};
use crate::population::{
    admitted, lemma_admission_is_determined, lemma_population_bounded, Admission, Individual,
    IndividualView, Population,
};

verus! {

/// The kinds of problem that the controller tells apart.
#[derive(Clone, Copy, Debug, PartialEq, Eq, Structural)]
pub enum ProblemType {
    Acvrp,
    Bwtsp,
    Ccvrp,
    Ctsp,
    Cvrp,
    Cvrptw,
    Hcp,
    Hpp,
    Ktsp,
    MPdtsp,
    M1Pdtsp,
    Mlp,
    OnePdtsp,
    Ovrp,
    Pdptw,
    Pdtsp,
    Pdtspl,
    Rctvrp,
    Rctvrptw,
    Sop,
    Trp,
    Tsptw,
    Vrpb,
    Vrpbtw,
    Vrppd,
    /// Any type that nothing here tells from a plain salesman problem.
    Other,
}

/// What several salesmen are to minimise together.
#[derive(Clone, Copy, Debug, PartialEq, Eq, Structural)]
pub enum Objective {
    Unset,
    MinMax,
    MinMaxSize,
    MinSum,
}

/// What is fixed before the first run.
#[derive(Clone, Copy, Debug, PartialEq, Eq, Structural)]
pub struct Config {
    pub max_population_size: u32,
    pub runs: u32,
    /// In the unit in which elapsed time is handed in.
    pub time_limit: u64,
    pub stop_at_optimum: bool,
    /// The problem minimises a makespan, which no merge can handle.
    pub makespan: bool,
    /// The problem has a penalty function.
    pub penalized: bool,
    pub problem_type: ProblemType,
    pub objective: Objective,
    pub salesmen: u32,
    pub seed: u32,
}

/// Why the loop has ended.
#[derive(Clone, Copy, Debug, PartialEq, Eq, Structural)]
pub enum Stop {
    TimeLimitHit,
    RunLimitReached,
    OptimumStop,
}

/// What the controller waits for within a run.
#[derive(Clone, Copy, Debug, PartialEq, Eq, Structural)]
pub enum Pending {
    Clock,
    Search,
    Merge(usize),
    BestMerge,
    FirstParent,
    SecondParent(usize),
    Crossover(usize, usize),
}

/// Where the loop stands.
#[derive(Clone, Copy, Debug, PartialEq, Eq, Structural)]
pub enum Phase {
    Init,
    Iterating(Pending),
    Done(Stop),
}

/// What a collaborator hands in.
#[derive(Debug)]
pub enum Event {
    /// The loop may begin.
    Start,
    /// The time elapsed since the start.
    Clock(u64),
    /// The tour that a local search or a merge has left, with its fitness.
    Tour(Individual),
    /// A number drawn at random, evenly spread.
    Drawn(u64),
    /// The recombination has been applied.
    Crossed,
}

/// What the controller asks for next.
#[derive(Clone, Copy, Debug, PartialEq, Eq, Structural)]
pub enum Request {
    Start,
    ReadClock,
    LocalSearch,
    MergeWithIndividual(usize),
    MergeWithBest,
    /// Draw a number at random, to select a parent among so many members.
    SelectParent(usize),
    /// Recombine the members of these two ranks, then adopt the tour;
    /// with the flag set, every step of it becomes a candidate edge.
    Crossover(usize, usize, bool),
    Stop(Stop),
}

/// What has happened in a step, for the collaborators to act on.
#[derive(Clone, Copy, Debug, PartialEq, Eq, Structural)]
pub struct Effects {
    /// The merge handed in was strictly better than the tour it met.
    pub merge_improved: bool,
    /// What became of the tour of this run in the population.
    pub admission: Admission,
    /// The best-known solution is new: write it out.
    pub new_best: bool,
    /// The bound on the optimum has fallen: freeze the tour.
    pub new_optimum: bool,
    /// A run has been closed: its statistics are due.
    pub run_closed: bool,
    /// The generator is to be seeded anew with this seed.
    pub reseed: Option<u32>,
}

/// The outcome of a step.
#[derive(Clone, Copy, Debug, PartialEq, Eq, Structural)]
pub struct Step {
    pub request: Request,
    pub effects: Effects,
}

/// The bias of the linear selection of parents, as a fraction.
pub const SELECTION_BIAS_NUMERATOR: u32 = 5;

pub const SELECTION_BIAS_DENOMINATOR: u32 = 4;

/// The priority of the candidate edges that a crossover puts forward: the
/// highest there is. Each step of the tour is registered in both
/// directions.
pub const CROSSOVER_EDGE_PRIORITY: i32 = 2147483647;

/// The bias under which parents are selected.
pub open spec fn selection_bias() -> Bias {
    Bias { num: SELECTION_BIAS_NUMERATOR, den: SELECTION_BIAS_DENOMINATOR }
}

/// Nothing has happened.
pub open spec fn no_effects() -> Effects {
    Effects {
        merge_improved: false,
        admission: Admission::Unchanged,
        new_best: false,
        new_optimum: false,
        run_closed: false,
        reseed: None,
    }
}

/// The seed of the run after one of seed `seed`.
pub open spec fn next_seed(seed: u32) -> u32 {
    if seed == u32::MAX {
        0
    } else {
        (seed + 1) as u32
    }
}

impl Config {
    /// Runs are merged with a population.
    pub open spec fn population_mode(self) -> bool {
        self.max_population_size > 1
    }

    /// The salesmen minimise the largest of their tours.
    pub open spec fn minimax(self) -> bool {
        self.objective == Objective::MinMax || self.objective == Objective::MinMaxSize
    }

    /// The bound on the optimum after a run that has left `current`: a
    /// feasible tour lowers it to its cost; under a penalized minimax
    /// objective a tour lowers it to its penalty.
    pub open spec fn optimum_after(self, optimum: i64, current: Fitness) -> i64 {
        if !self.penalized || !self.minimax() {
            if current.penalty == 0 && current.cost < optimum {
                current.cost
            } else {
                optimum
            }
        } else if current.penalty < optimum {
            current.penalty
        } else {
            optimum
        }
    }

    /// The run that has left `current` has met the bound `optimum`, and
    /// the loop is to end on that.
    pub open spec fn at_optimum(self, optimum: i64, current: Fitness) -> bool {
        &&& self.stop_at_optimum
        &&& self.population_mode()
        &&& self.problem_type != ProblemType::Ccvrp
        &&& self.problem_type != ProblemType::Trp
        &&& self.problem_type != ProblemType::Ktsp
        &&& self.problem_type != ProblemType::Mlp
        &&& self.objective != Objective::MinMax
        &&& if self.objective != Objective::MinMaxSize {
            current.penalty == 0 && current.cost == optimum
        } else {
            current.penalty == optimum
        }
    }

    /// After run `run` of `runs`, a population of `size` members is due
    /// for a crossover.
    pub open spec fn crossover_due(self, size: int, run: int, runs: int) -> bool {
        &&& size >= 2
        &&& (size == self.max_population_size || run >= 2 * self.max_population_size)
        &&& run < runs
    }

    /// The steps of a tour are worth registering as candidate edges.
    pub open spec fn registers_edges(self) -> bool {
        self.problem_type != ProblemType::Hcp && self.problem_type != ProblemType::Hpp
    }

    /// Whether the salesmen minimise the largest of their tours.
    pub fn is_minimax(&self) -> (r: bool)
        ensures
            r == self.minimax(),
    {
        self.objective == Objective::MinMax || self.objective == Objective::MinMaxSize
    }
}

/// The state of the run loop.
#[derive(Debug)]
pub struct Controller {
    pub config: Config,
    pub population: Population,
    /// The tour of the present run.
    pub current: Individual,
    /// The best-known solution.
    pub best: Individual,
    /// The bound on the optimum.
    pub optimum: i64,
    /// The number of the present run, the first being run one.
    pub run: u64,
    /// The number of runs to make.
    pub runs: u64,
    pub seed: u32,
    pub phase: Phase,
}

/// The better of the best-known solution and the tour of a run; of two
/// equally good ones, the best-known.
pub open spec fn best_of(best: IndividualView, current: IndividualView) -> IndividualView {
    if current.fitness.smaller(best.fitness) {
        current
    } else {
        best
    }
}

impl Controller {
    /// The population is sound and as large as configured at most, the run
    /// counters are in step with the phase, and the ranks that the phase
    /// names are ranks of members.
    pub open spec fn wf(&self) -> bool {
        &&& self.population.wf()
        &&& self.population.capacity() == self.config.max_population_size
        &&& self.runs <= u32::MAX
        &&& match self.phase {
            Phase::Init => self.run == 0,
            Phase::Iterating(pending) => {
                &&& 1 <= self.run <= self.runs
                &&& match pending {
                    Pending::Merge(i) => self.config.population_mode() && !self.config.makespan && i
                        < self.population@.len(),
                    Pending::FirstParent => self.population@.len() >= 2 && self.run < self.runs,
                    Pending::SecondParent(p) => p < self.population@.len() && self.population@.len()
                        >= 2 && self.run < self.runs,
                    Pending::Crossover(p, q) => p < self.population@.len() && q
                        < self.population@.len() && p != q && self.run < self.runs,
                    _ => true,
                }
            },
            Phase::Done(_) => self.run <= self.runs + 1,
        }
    }

    /// What the controller waits for: the request of the step that has
    /// led to this state.
    pub open spec fn pending(&self) -> Request {
        match self.phase {
            Phase::Init => Request::Start,
            Phase::Iterating(Pending::Clock) => Request::ReadClock,
            Phase::Iterating(Pending::Search) => Request::LocalSearch,
            Phase::Iterating(Pending::Merge(i)) => Request::MergeWithIndividual(i),
            Phase::Iterating(Pending::BestMerge) => Request::MergeWithBest,
            Phase::Iterating(Pending::FirstParent) => Request::SelectParent(
                self.population@.len() as usize,
            ),
            Phase::Iterating(Pending::SecondParent(_)) => Request::SelectParent(
                self.population@.len() as usize,
            ),
            Phase::Iterating(Pending::Crossover(p, q)) => Request::Crossover(
                p,
                q,
                self.config.registers_edges(),
            ),
            Phase::Done(stop) => Request::Stop(stop),
        }
    }

    /// `event` is an answer to what the controller waits for.
    pub open spec fn fits(&self, event: Event) -> bool {
        match (self.phase, event) {
            (Phase::Init, Event::Start) => true,
            (Phase::Iterating(Pending::Clock), Event::Clock(_)) => true,
            (Phase::Iterating(Pending::Search), Event::Tour(_)) => true,
            (Phase::Iterating(Pending::Merge(_)), Event::Tour(_)) => true,
            (Phase::Iterating(Pending::BestMerge), Event::Tour(_)) => true,
            (Phase::Iterating(Pending::FirstParent), Event::Drawn(_)) => true,
            (Phase::Iterating(Pending::SecondParent(_)), Event::Drawn(_)) => true,
            (Phase::Iterating(Pending::Crossover(_, _)), Event::Crossed) => true,
            _ => false,
        }
    }

    /// The draw `draw` selects the member of rank `rank` as a parent.
    pub open spec fn draws(&self, draw: u64, rank: usize) -> bool {
        selects(self.population@.len() as int, selection_bias(), draw as int, rank as int)
    }

    /// The rank last drawn while parents are selected.
    pub open spec fn drawn(&self) -> usize {
        match self.phase {
            Phase::Iterating(Pending::SecondParent(p)) => p,
            Phase::Iterating(Pending::Crossover(_, q)) => q,
            _ => 0,
        }
    }

    /// Everything but the phase and the run counters is as it was.
    pub open spec fn same_search_state(&self, other: &Controller) -> bool {
        &&& self.config == other.config
        &&& self.population@ == other.population@
        &&& self.current@ == other.current@
        &&& self.best@ == other.best@
        &&& self.optimum == other.optimum
    }

    /// `self` follows `before` by going on to the next run: the seed
    /// advances by one, the run by one, and the loop ends when the runs
    /// are used up.
    pub open spec fn advanced_from(&self, before: &Controller) -> bool {
        &&& self.same_search_state(before)
        &&& self.seed == next_seed(before.seed)
        &&& self.run == before.run + 1
        &&& self.runs == before.runs
        &&& self.phase == if self.run > self.runs {
            Phase::Done(Stop::RunLimitReached)
        } else {
            Phase::Iterating(Pending::Clock)
        }
    }

    /// `self` follows `before` by closing the run whose tour is
    /// `self.current`, the population being what it is in `self`.
    pub open spec fn closed_from(&self, before: &Controller) -> bool {
        let current = self.current@.fitness;
        &&& self.config == before.config
        &&& self.best@ == best_of(before.best@, self.current@)
        &&& self.optimum == before.config.optimum_after(before.optimum, current)
        &&& if before.config.at_optimum(self.optimum, current) {
            &&& self.run == before.run
            &&& self.runs == before.run
            &&& self.seed == before.seed
            &&& self.phase == Phase::Done(Stop::OptimumStop)
        } else if before.config.crossover_due(
            self.population@.len() as int,
            before.run as int,
            before.runs as int,
        ) {
            &&& self.run == before.run
            &&& self.runs == before.runs
            &&& self.seed == before.seed
            &&& self.phase == Phase::Iterating(Pending::FirstParent)
        } else {
            &&& self.seed == next_seed(before.seed)
            &&& self.run == before.run + 1
            &&& self.runs == before.runs
            &&& self.phase == if self.run > self.runs {
                Phase::Done(Stop::RunLimitReached)
            } else {
                Phase::Iterating(Pending::Clock)
            }
        }
    }

    /// What a step that closes a run reports.
    pub open spec fn closing_effects(&self, before: &Controller, effects: Effects) -> bool {
        &&& effects.new_best == self.current@.fitness.smaller(before.best@.fitness)
        &&& effects.new_optimum == (self.optimum < before.optimum)
        &&& effects.run_closed
        &&& effects.reseed == if self.seed != before.seed || self.run != before.run {
            Some(self.seed)
        } else {
            None
        }
    }

    /// The step from `before` to `self` on the event `event`.
    pub open spec fn follows(&self, before: &Controller, event: Event, effects: Effects) -> bool {
        if !before.fits(event) {
            &&& self.same_search_state(before)
            &&& self.run == before.run
            &&& self.runs == before.runs
            &&& self.seed == before.seed
            &&& self.phase == before.phase
            &&& effects == no_effects()
        } else {
            match (before.phase, event) {
                (Phase::Init, _) => {
                    &&& self.same_search_state(before)
                    &&& self.run == 1
                    &&& self.runs == before.runs
                    &&& self.seed == before.seed
                    &&& self.phase == if before.runs == 0 {
                        Phase::Done(Stop::RunLimitReached)
                    } else {
                        Phase::Iterating(Pending::Clock)
                    }
                    &&& effects == no_effects()
                },
                (Phase::Iterating(Pending::Clock), Event::Clock(elapsed)) => {
                    &&& self.same_search_state(before)
                    &&& self.runs == before.runs
                    &&& self.seed == before.seed
                    &&& effects == no_effects()
                    &&& if elapsed >= before.config.time_limit {
                        self.run == before.run - 1 && self.phase == Phase::Done(Stop::TimeLimitHit)
                    } else {
                        self.run == before.run && self.phase == Phase::Iterating(Pending::Search)
                    }
                },
                (Phase::Iterating(Pending::Search), Event::Tour(tour)) => {
                    &&& self.current@ == tour@
                    &&& !effects.merge_improved
                    &&& if before.config.population_mode() && !before.config.makespan {
                        if before.population@.len() > 0 {
                            self.waits_for_merge(before, Pending::Merge(0), effects)
                        } else {
                            &&& admitted(
                                before.population@,
                                before.population.capacity(),
                                self.population@,
                                self.current@,
                                effects.admission,
                            )
                            &&& self.closed_from(before)
                            &&& self.closing_effects(before, effects)
                        }
                    } else if before.run > 1 && !before.config.makespan {
                        self.waits_for_merge(before, Pending::BestMerge, effects)
                    } else {
                        &&& self.population@ == before.population@
                        &&& effects.admission is Unchanged
                        &&& self.closed_from(before)
                        &&& self.closing_effects(before, effects)
                    }
                },
                (Phase::Iterating(Pending::Merge(i)), Event::Tour(tour)) => {
                    &&& self.current@ == best_of(before.current@, tour@)
                    &&& effects.merge_improved == tour@.fitness.smaller(before.current@.fitness)
                    &&& if i + 1 < before.population@.len() {
                        self.waits_for_merge(before, Pending::Merge((i + 1) as usize), effects)
                    } else {
                        &&& admitted(
                            before.population@,
                            before.population.capacity(),
                            self.population@,
                            self.current@,
                            effects.admission,
                        )
                        &&& self.closed_from(before)
                        &&& self.closing_effects(before, effects)
                    }
                },
                (Phase::Iterating(Pending::BestMerge), Event::Tour(tour)) => {
                    &&& self.current@ == best_of(before.current@, tour@)
                    &&& effects.merge_improved == tour@.fitness.smaller(before.current@.fitness)
                    &&& self.population@ == before.population@
                    &&& effects.admission is Unchanged
                    &&& self.closed_from(before)
                    &&& self.closing_effects(before, effects)
                },
                (Phase::Iterating(Pending::FirstParent), Event::Drawn(draw)) => {
                    &&& self.same_search_state(before)
                    &&& self.run == before.run
                    &&& self.runs == before.runs
                    &&& self.seed == before.seed
                    &&& match self.phase {
                        Phase::Iterating(Pending::SecondParent(p)) => before.draws(draw, p),
                        _ => false,
                    }
                    &&& effects == no_effects()
                },
                (Phase::Iterating(Pending::SecondParent(first)), Event::Drawn(draw)) => {
                    &&& self.same_search_state(before)
                    &&& self.run == before.run
                    &&& self.runs == before.runs
                    &&& self.seed == before.seed
                    &&& match self.phase {
                        Phase::Iterating(Pending::Crossover(p, q)) => p == first && q != first
                            && before.draws(draw, q),
                        Phase::Iterating(Pending::SecondParent(p)) => p == first && before.draws(
                            draw,
                            first,
                        ),
                        _ => false,
                    }
                    &&& effects == no_effects()
                },
                (Phase::Iterating(Pending::Crossover(_, _)), Event::Crossed) => {
                    &&& self.advanced_from(before)
                    &&& effects == (Effects { reseed: Some(self.seed), ..no_effects() })
                },
                _ => false,
            }
        }
    }

    /// Within a run: nothing but the tour of the run and the phase change.
    pub open spec fn waits_for_merge(&self, before: &Controller, pending: Pending, effects: Effects) -> bool {
        &&& self.config == before.config
        &&& self.population@ == before.population@
        &&& self.best@ == before.best@
        &&& self.optimum == before.optimum
        &&& self.run == before.run
        &&& self.runs == before.runs
        &&& self.seed == before.seed
        &&& self.phase == Phase::Iterating(pending)
        &&& effects.admission is Unchanged
        &&& !effects.new_best
        &&& !effects.new_optimum
        &&& !effects.run_closed
        &&& effects.reseed.is_none()
    }

    /// A controller before its first run, with nothing found yet and
    /// `optimum` as the bound on the optimum.
    pub fn new(config: Config, optimum: i64) -> (c: Controller)
        ensures
            c.wf(),
            c.config == config,
            c.population@.len() == 0,
            c.current@ == (IndividualView {
                fitness: Fitness { penalty: PLUS_INFINITY, cost: PLUS_INFINITY },
                tour: Seq::<usize>::empty(),
            }),
            c.best@ == c.current@,
            c.optimum == optimum,
            c.run == 0,
            c.runs == config.runs,
            c.seed == config.seed,
            c.phase == Phase::Init,
    {
        Controller {
            config,
            population: Population::new(config.max_population_size as usize),
            current: Individual::new(PLUS_INFINITY, PLUS_INFINITY, Vec::new()),
            best: Individual::new(PLUS_INFINITY, PLUS_INFINITY, Vec::new()),
            optimum,
            run: 0,
            runs: config.runs as u64,
            seed: config.seed,
            phase: Phase::Init,
        }
    }

    /// A controller for a problem that the bounding has solved already:
    /// the feasible tour `tour` of cost `cost` is the best-known solution
    /// and the optimum, and no run is left to make.
    pub fn solved(config: Config, cost: i64, tour: Vec<usize>) -> (c: Controller)
        ensures
            c.wf(),
            c.config == config,
            c.population@.len() == 0,
            c.best@ == (IndividualView { fitness: Fitness { penalty: 0, cost }, tour: tour@ }),
            c.current@ == c.best@,
            c.optimum == cost,
            c.run == 0,
            c.runs == 0,
            c.seed == config.seed,
            c.phase == Phase::Init,
    {
        let best = Individual::new(0, cost, tour);
        let current = best.snapshot();
        Controller {
            config,
            population: Population::new(config.max_population_size as usize),
            current,
            best,
            optimum: cost,
            run: 0,
            runs: 0,
            seed: config.seed,
            phase: Phase::Init,
        }
    }

    /// What the controller waits for.
    pub fn pending_request(&self) -> (r: Request)
        ensures
            r == self.pending(),
    {
        match self.phase {
            Phase::Init => Request::Start,
            Phase::Iterating(Pending::Clock) => Request::ReadClock,
            Phase::Iterating(Pending::Search) => Request::LocalSearch,
            Phase::Iterating(Pending::Merge(i)) => Request::MergeWithIndividual(i),
            Phase::Iterating(Pending::BestMerge) => Request::MergeWithBest,
            Phase::Iterating(Pending::FirstParent) => Request::SelectParent(self.population.len()),
            Phase::Iterating(Pending::SecondParent(_)) => Request::SelectParent(
                self.population.len(),
            ),
            Phase::Iterating(Pending::Crossover(p, q)) => Request::Crossover(
                p,
                q,
                self.config.problem_type != ProblemType::Hcp && self.config.problem_type
                    != ProblemType::Hpp,
            ),
            Phase::Done(stop) => Request::Stop(stop),
        }
    }

    /// Whether the loop has ended.
    pub fn is_done(&self) -> (r: bool)
        ensures
            r == (self.phase is Done),
    {
        match self.phase {
            Phase::Done(_) => true,
            _ => false,
        }
    }

    /// Whether the run that has left the present tour has met the bound on
    /// the optimum, and the loop is to end on that.
    pub fn is_at_optimum(&self) -> (r: bool)
        ensures
            r == self.config.at_optimum(self.optimum, self.current@.fitness),
    {
        self.config.stop_at_optimum && self.config.max_population_size > 1
            && self.config.problem_type != ProblemType::Ccvrp && self.config.problem_type
            != ProblemType::Trp && self.config.problem_type != ProblemType::Ktsp
            && self.config.problem_type != ProblemType::Mlp && self.config.objective
            != Objective::MinMax && if self.config.objective != Objective::MinMaxSize {
            self.current.penalty == 0 && self.current.cost == self.optimum
        } else {
            self.current.penalty == self.optimum
        }
    }

    /// Whether the population is due for a crossover after the present run.
    pub fn is_crossover_due(&self) -> (r: bool)
        ensures
            r == self.config.crossover_due(
                self.population@.len() as int,
                self.run as int,
                self.runs as int,
            ),
    {
        let size: usize = self.population.len();
        let cap: u32 = self.config.max_population_size;
        size >= 2 && (size == cap as usize || 2 * (cap as u64) <= self.run) && self.run < self.runs
    }

    /// The rank of the member that the draw `draw` selects as a parent.
    fn select(&self, draw: u64) -> (rank: usize)
        requires
            self.wf(),
            self.population@.len() >= 1,
        ensures
            self.draws(draw, rank),
            rank < self.population@.len(),
    {
        proof {
            lemma_population_bounded(self.population);
        }
        let size: usize = self.population.len();
        let bias = Bias { num: SELECTION_BIAS_NUMERATOR, den: SELECTION_BIAS_DENOMINATOR };
        linear_selection(size as u32, bias, draw)
    }

    /// Goes on to the next run, or ends the loop when the runs are used up.
    fn advance(&mut self) -> (seed: u32)
        requires
            old(self).run <= old(self).runs <= u32::MAX,
        ensures
            final(self).advanced_from(old(self)),
            final(self).population == old(self).population,
            seed == final(self).seed,
    {
        self.seed = if self.seed == u32::MAX { 0 } else { self.seed + 1 };
        self.run = self.run + 1;
        self.phase = if self.run > self.runs {
            Phase::Done(Stop::RunLimitReached)
        } else {
            Phase::Iterating(Pending::Clock)
        };
        self.seed
    }

    /// Closes the run: the best-known solution and the bound on the optimum
    /// take the tour of the run into account, and the loop ends, turns to
    /// a crossover or goes on.
    fn close_run(&mut self, merge_improved: bool, admission: Admission) -> (effects: Effects)
        requires
            old(self).wf(),
            old(self).phase is Iterating,
        ensures
            final(self).wf(),
            final(self).population == old(self).population,
            final(self).current@ == old(self).current@,
            final(self).closed_from(old(self)),
            final(self).closing_effects(old(self), effects),
            effects.merge_improved == merge_improved,
            effects.admission == admission,
    {
        let new_best = self.current.fitness().is_smaller(&self.best.fitness());
        if new_best {
            self.best = self.current.snapshot();
        }
        let old_optimum = self.optimum;
        if !self.config.penalized || !self.config.is_minimax() {
            if self.current.penalty == 0 && self.current.cost < self.optimum {
                self.optimum = self.current.cost;
            }
        } else if self.current.penalty < self.optimum {
            self.optimum = self.current.penalty;
        }
        let new_optimum = self.optimum < old_optimum;
        let mut reseed: Option<u32> = None;
        if self.is_at_optimum() {
            self.runs = self.run;
            self.phase = Phase::Done(Stop::OptimumStop);
        } else if self.is_crossover_due() {
            self.phase = Phase::Iterating(Pending::FirstParent);
        } else {
            reseed = Some(self.advance());
        }
        Effects { merge_improved, admission, new_best, new_optimum, run_closed: true, reseed }
    }

    /// Offers the tour of the run to the population, then closes the run.
    fn settle(&mut self, merge_improved: bool) -> (effects: Effects)
        requires
            old(self).wf(),
            old(self).phase is Iterating,
        ensures
            final(self).wf(),
            final(self).current@ == old(self).current@,
            admitted(
                old(self).population@,
                old(self).population.capacity(),
                final(self).population@,
                old(self).current@,
                effects.admission,
            ),
            final(self).closed_from(old(self)),
            final(self).closing_effects(old(self), effects),
            effects.merge_improved == merge_improved,
    {
        let entrant = self.current.snapshot();
        let admission = self.population.offer(entrant.penalty, entrant.cost, entrant.tour);
        self.close_run(merge_improved, admission)
    }

    /// Takes `event` in and says what to do next. An event that is no
    /// answer to what the controller waits for changes nothing, and what
    /// it waits for is asked again.
    pub fn step(&mut self, event: Event) -> (step: Step)
        requires
            old(self).wf(),
        ensures
            final(self).wf(),
            final(self).follows(old(self), event, step.effects),
            step.request == final(self).pending(),
            !final(self).best@.fitness.larger(old(self).best@.fitness),
            final(self).population@.len() <= final(self).config.max_population_size,
            final(self).config.max_population_size <= 1 ==> !(step.request is SelectParent)
                && !(step.request is Crossover),
    {
        let none = Effects {
            merge_improved: false,
            admission: Admission::Unchanged,
            new_best: false,
            new_optimum: false,
            run_closed: false,
            reseed: None,
        };
        let mut effects = none;
        match (self.phase, event) {
            (Phase::Init, Event::Start) => {
                self.run = 1;
                self.phase = if self.runs == 0 {
                    Phase::Done(Stop::RunLimitReached)
                } else {
                    Phase::Iterating(Pending::Clock)
                };
            },
            (Phase::Iterating(Pending::Clock), Event::Clock(elapsed)) => {
                if elapsed >= self.config.time_limit {
                    self.run = self.run - 1;
                    self.phase = Phase::Done(Stop::TimeLimitHit);
                } else {
                    self.phase = Phase::Iterating(Pending::Search);
                }
            },
            (Phase::Iterating(Pending::Search), Event::Tour(tour)) => {
                self.current = tour;
                if self.config.max_population_size > 1 && !self.config.makespan {
                    if self.population.len() > 0 {
                        self.phase = Phase::Iterating(Pending::Merge(0));
                    } else {
                        effects = self.settle(false);
                    }
                } else if self.run > 1 && !self.config.makespan {
                    self.phase = Phase::Iterating(Pending::BestMerge);
                } else {
                    effects = self.close_run(false, Admission::Unchanged);
                }
            },
            (Phase::Iterating(Pending::Merge(i)), Event::Tour(tour)) => {
                let improved = tour.fitness().is_smaller(&self.current.fitness());
                if improved {
                    self.current = tour;
                }
                let size: usize = self.population.len();
                if i + 1 < size {
                    self.phase = Phase::Iterating(Pending::Merge(i + 1));
                    effects.merge_improved = improved;
                } else {
                    effects = self.settle(improved);
                }
            },
            (Phase::Iterating(Pending::BestMerge), Event::Tour(tour)) => {
                let improved = tour.fitness().is_smaller(&self.current.fitness());
                if improved {
                    self.current = tour;
                }
                effects = self.close_run(improved, Admission::Unchanged);
            },
            (Phase::Iterating(Pending::FirstParent), Event::Drawn(draw)) => {
                let p = self.select(draw);
                self.phase = Phase::Iterating(Pending::SecondParent(p));
            },
            (Phase::Iterating(Pending::SecondParent(first)), Event::Drawn(draw)) => {
                let p = self.select(draw);
                if p != first {
                    self.phase = Phase::Iterating(Pending::Crossover(first, p));
                }
            },
            (Phase::Iterating(Pending::Crossover(_, _)), Event::Crossed) => {
                let seed = self.advance();
                effects.reseed = Some(seed);
            },
            _ => {},
        }
        proof {
            lemma_population_bounded(self.population);
        }
        Step { request: self.pending_request(), effects }
    }
}

/// A step never leaves a best-known solution that is worse than the one
/// before it.
pub proof fn lemma_best_never_worsens(before: Controller, after: Controller, event: Event, effects: Effects)
    requires
        before.wf(),
        after.follows(&before, event, effects),
    ensures
        !after.best@.fitness.larger(before.best@.fitness),
{
}

/// The same state and the same event give the same next state, the same
/// effects and the same request: what the loop does depends on nothing
/// else.
pub proof fn lemma_step_is_determined(
    before: Controller,
    first: Controller,
    second: Controller,
    event: Event,
    e1: Effects,
    e2: Effects,
)
    requires
        before.wf(),
        first.follows(&before, event, e1),
        second.follows(&before, event, e2),
    ensures
        first.config == second.config,
        first.population@ == second.population@,
        first.run == second.run,
        first.runs == second.runs,
        first.seed == second.seed,
        first.phase == second.phase,
        first.current@ == second.current@,
        first.best@ == second.best@,
        first.optimum == second.optimum,
        first.pending() == second.pending(),
        e1 == e2,
{
    if before.fits(event) {
        match (before.phase, event) {
            (Phase::Iterating(Pending::FirstParent), Event::Drawn(draw)) => {
                let size = before.population@.len() as int;
                match (first.phase, second.phase) {
                    (
                        Phase::Iterating(Pending::SecondParent(p)),
                        Phase::Iterating(Pending::SecondParent(q)),
                    ) => {
                        lemma_selection_is_one(size, selection_bias(), draw as int, p as int, q as int);
                    },
                    _ => {},
                }
            },
            (Phase::Iterating(Pending::SecondParent(_)), Event::Drawn(draw)) => {
                let size = before.population@.len() as int;
                let p = first.drawn();
                let q = second.drawn();
                lemma_selection_is_one(size, selection_bias(), draw as int, p as int, q as int);
            },
            (Phase::Iterating(Pending::Search), Event::Tour(tour)) => {
                if before.config.population_mode() && !before.config.makespan
                    && before.population@.len() == 0 {
                    lemma_admission_is_determined(
                        before.population@,
                        before.population.capacity(),
                        first.current@,
                        first.population@,
                        e1.admission,
                        second.population@,
                        e2.admission,
                    );
                }
            },
            (Phase::Iterating(Pending::Merge(i)), Event::Tour(tour)) => {
                if i + 1 >= before.population@.len() {
                    lemma_admission_is_determined(
                        before.population@,
                        before.population.capacity(),
                        first.current@,
                        first.population@,
                        e1.admission,
                        second.population@,
                        e2.admission,
                    );
                }
            },
            _ => {},
        }
    }
}

} // verus!
