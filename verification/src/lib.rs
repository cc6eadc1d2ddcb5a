//! Run controller of a population-based iterated local search for
//! tour-construction problems.
//!
//! The local-search kernel, the merge and recombination operators and all
//! file handling are collaborators of this library: it decides what they are
//! asked to do next and what becomes of their results.

pub mod controller;
pub mod fitness;
pub mod paths;
pub mod population;
pub mod selection;
pub mod setup;
pub mod tour;

pub use controller::{Config, Controller, Effects, Event, Objective, Pending, Phase, ProblemType, Request, Step, Stop};
pub use fitness::{larger_fitness, smaller_fitness, Fitness, MINUS_INFINITY, PLUS_INFINITY};
pub use selection::{linear_selection, Bias};
pub use population::{Admission, Individual, Population};
pub use tour::{Node, NodeTable};
