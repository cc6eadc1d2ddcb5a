//! What is decided once, before the first run and after the last.

use vstd::prelude::*;
use crate::controller::{Config, Objective, ProblemType};
use crate::fitness::MINUS_INFINITY;

verus! {

/// The ways to cut a problem into subproblems.
#[derive(Clone, Copy, Debug, PartialEq, Eq, Structural)]
pub enum Partitioning {
    Delaunay,
    Karp,
    KCenter,
    KMeans,
    Rohe,
    SpaceFillingCurve,
    TourSegment,
}

/// The partitionings that the parameters have switched on.
#[derive(Clone, Copy, Debug, PartialEq, Eq, Structural)]
pub struct PartitionFlags {
    pub delaunay: bool,
    pub karp: bool,
    pub k_center: bool,
    pub k_means: bool,
    pub rohe: bool,
    pub moore: bool,
    pub sierpinski: bool,
}

/// The passes that simplify a problem before the search.
#[derive(Clone, Copy, Debug, PartialEq, Eq, Structural)]
pub enum Reduction {
    TimeWindow,
    Backhaul,
    PickupDelivery,
}

/// The value that a gap to the optimum is measured on.
#[derive(Clone, Copy, Debug, PartialEq, Eq, Structural)]
pub enum GapSubject {
    Cost,
    Penalty,
}

/// With subproblems asked for, the first partitioning that is switched on,
/// in the order of `PartitionFlags`; tour segments where none is.
pub open spec fn partitioning_of(subproblem_size: i32, flags: PartitionFlags) -> Option<Partitioning> {
    if subproblem_size <= 0 {
        None
    } else if flags.delaunay {
        Some(Partitioning::Delaunay)
    } else if flags.karp {
        Some(Partitioning::Karp)
    } else if flags.k_center {
        Some(Partitioning::KCenter)
    } else if flags.k_means {
        Some(Partitioning::KMeans)
    } else if flags.rohe {
        Some(Partitioning::Rohe)
    } else if flags.moore || flags.sierpinski {
        Some(Partitioning::SpaceFillingCurve)
    } else {
        Some(Partitioning::TourSegment)
    }
}

/// How the problem is to be cut into subproblems, which are then solved
/// in place of the run loop; `None` where it is solved whole.
pub fn partitioning(subproblem_size: i32, flags: PartitionFlags) -> (r: Option<Partitioning>)
    ensures
        r == partitioning_of(subproblem_size, flags),
{
    if subproblem_size <= 0 {
        None
    } else if flags.delaunay {
        Some(Partitioning::Delaunay)
    } else if flags.karp {
        Some(Partitioning::Karp)
    } else if flags.k_center {
        Some(Partitioning::KCenter)
    } else if flags.k_means {
        Some(Partitioning::KMeans)
    } else if flags.rohe {
        Some(Partitioning::Rohe)
    } else if flags.moore || flags.sierpinski {
        Some(Partitioning::SpaceFillingCurve)
    } else {
        Some(Partitioning::TourSegment)
    }
}

/// The pass that simplifies a problem of this type, if there is one.
pub fn reduction(problem_type: ProblemType) -> (r: Option<Reduction>)
    ensures
        r == match problem_type {
            ProblemType::Tsptw => Some(Reduction::TimeWindow),
            ProblemType::Vrpb => Some(Reduction::Backhaul),
            ProblemType::Vrpbtw => Some(Reduction::Backhaul),
            ProblemType::Pdptw => Some(Reduction::PickupDelivery),
            _ => None,
        },
{
    match problem_type {
        ProblemType::Tsptw => Some(Reduction::TimeWindow),
        ProblemType::Vrpb | ProblemType::Vrpbtw => Some(Reduction::Backhaul),
        ProblemType::Pdptw => Some(Reduction::PickupDelivery),
        _ => None,
    }
}

/// Problems of this type end with a report of their own on the best
/// solution.
pub open spec fn constrained(problem_type: ProblemType) -> bool {
    match problem_type {
        ProblemType::Hcp | ProblemType::Hpp | ProblemType::Ktsp | ProblemType::Other => false,
        _ => true,
    }
}

/// Whether the best solution gets a report of its own at the end: for the
/// constrained types of problem, and wherever several salesmen have an
/// objective.
pub fn reports_best_solution(problem_type: ProblemType, objective: Objective) -> (r: bool)
    ensures
        r == (constrained(problem_type) || objective != Objective::Unset),
{
    let listed = match problem_type {
        ProblemType::Hcp | ProblemType::Hpp | ProblemType::Ktsp | ProblemType::Other => false,
        _ => true,
    };
    listed || objective != Objective::Unset
}

/// What a gap to the bound `optimum` is measured on when a merge is
/// reported: nothing where the bound is unknown or zero; the penalty for
/// the types of problem whose objective is their penalty and under a
/// minimax objective; the cost elsewhere.
pub fn gap_subject(config: &Config, optimum: i64) -> (r: Option<GapSubject>)
    ensures
        r == if optimum == MINUS_INFINITY || optimum == 0 {
            None
        } else if config.problem_type != ProblemType::Ccvrp && config.problem_type
            != ProblemType::Trp && config.problem_type != ProblemType::Mlp && config.problem_type
            != ProblemType::Cvrptw && !config.minimax() {
            Some(GapSubject::Cost)
        } else {
            Some(GapSubject::Penalty)
        },
{
    if optimum == MINUS_INFINITY || optimum == 0 {
        None
    } else if config.problem_type != ProblemType::Ccvrp && config.problem_type != ProblemType::Trp
        && config.problem_type != ProblemType::Mlp && config.problem_type != ProblemType::Cvrptw
        && !config.is_minimax() {
        Some(GapSubject::Cost)
    } else {
        Some(GapSubject::Penalty)
    }
}

/// Whether the tours of the salesmen are to be taken apart at the end.
pub fn needs_reconstruction(config: &Config) -> (r: bool)
    ensures
        r == (config.salesmen > 1),
{
    config.salesmen > 1
}

} // verus!
