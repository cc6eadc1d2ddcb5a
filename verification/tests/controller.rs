use lkh::fitness::Fitness;
use lkh::{
    Admission, Config, Controller, Event, Individual, Objective, Pending, Phase, ProblemType, Request, Step,
    Stop,
};

fn config(max_population_size: u32, runs: u32, time_limit: u64) -> Config {
    Config {
        max_population_size,
        runs,
        time_limit,
        stop_at_optimum: false,
        makespan: false,
        penalized: false,
        problem_type: ProblemType::Cvrp,
        objective: Objective::Unset,
        salesmen: 1,
        seed: 7,
    }
}

fn tour(penalty: i64, cost: i64) -> Event {
    Event::Tour(Individual::new(penalty, cost, vec![1, 2, 3]))
}

/// Answers every request as a collaborator would whose searches give the
/// costs of `costs` in turn, whose merges change nothing, and whose
/// random numbers are those of `draws` in turn. Returns what was asked,
/// with the seed and the run at that time.
fn drive(c: &mut Controller, costs: &[(i64, i64)], draws: &[u64]) -> Vec<(Request, u32, u64)> {
    let mut asked = Vec::new();
    let mut searches = 0;
    let mut drawn = 0;
    let mut step: Step = c.step(Event::Start);
    let mut guard = 0;
    loop {
        asked.push((step.request, c.seed, c.run));
        guard += 1;
        assert!(guard < 10_000);
        let event = match step.request {
            Request::Start => Event::Start,
            Request::ReadClock => Event::Clock(1),
            Request::LocalSearch => {
                let (p, k) = costs[searches % costs.len()];
                searches += 1;
                tour(p, k)
            }
            Request::MergeWithIndividual(_) | Request::MergeWithBest => {
                tour(c.current.penalty, c.current.cost)
            }
            Request::SelectParent(_) => {
                let d = draws[drawn % draws.len()];
                drawn += 1;
                Event::Drawn(d)
            }
            Request::Crossover(_, _, _) => Event::Crossed,
            Request::Stop(_) => break,
        };
        step = c.step(event);
    }
    asked
}

#[test]
fn a_new_controller_has_found_nothing() {
    let c = Controller::new(config(3, 5, 100), i64::MIN);
    assert_eq!(c.phase, Phase::Init);
    assert_eq!(c.best.fitness(), Fitness::new(i64::MAX, i64::MAX));
    assert_eq!(c.current.fitness(), Fitness::new(i64::MAX, i64::MAX));
    assert_eq!(c.optimum, i64::MIN);
    assert_eq!(c.run, 0);
    assert_eq!(c.runs, 5);
    assert_eq!(c.seed, 7);
    assert_eq!(c.population.len(), 0);
    assert_eq!(c.pending_request(), Request::Start);
    assert!(!c.is_done());
}

#[test]
fn a_time_limit_of_zero_stops_at_the_first_look_at_the_clock() {
    let mut c = Controller::new(config(3, 5, 0), i64::MIN);
    let s = c.step(Event::Start);
    assert_eq!(s.request, Request::ReadClock);
    assert_eq!(c.run, 1);
    let s = c.step(Event::Clock(0));
    assert_eq!(s.request, Request::Stop(Stop::TimeLimitHit));
    assert_eq!(c.phase, Phase::Done(Stop::TimeLimitHit));
    assert_eq!(c.run, 0);
    assert_eq!(c.seed, 7);
    assert!(c.is_done());
    assert_eq!(c.population.len(), 0);
}

#[test]
fn the_time_limit_is_hit_when_the_time_is_up_and_not_before() {
    let mut c = Controller::new(config(0, 5, 10), i64::MIN);
    c.step(Event::Start);
    assert_eq!(c.step(Event::Clock(9)).request, Request::LocalSearch);
    let s = c.step(tour(0, 50));
    assert_eq!(s.request, Request::ReadClock);
    assert_eq!(c.run, 2);
    assert_eq!(c.step(Event::Clock(10)).request, Request::Stop(Stop::TimeLimitHit));
    assert_eq!(c.run, 1);
}

#[test]
fn no_runs_no_loop() {
    let mut c = Controller::solved(config(3, 5, 100), 42, vec![1, 2, 3]);
    assert_eq!(c.runs, 0);
    assert_eq!(c.optimum, 42);
    assert_eq!(c.best.fitness(), Fitness::new(0, 42));
    assert_eq!(c.best.tour, vec![1, 2, 3]);
    let s = c.step(Event::Start);
    assert_eq!(s.request, Request::Stop(Stop::RunLimitReached));
    assert!(c.is_done());
    let mut d = Controller::new(config(3, 0, 100), i64::MIN);
    assert_eq!(d.step(Event::Start).request, Request::Stop(Stop::RunLimitReached));
}

#[test]
fn a_population_of_one_never_leads_to_a_crossover() {
    for cap in [0u32, 1] {
        let mut c = Controller::new(config(cap, 25, 100), i64::MIN);
        let asked = drive(&mut c, &[(0, 90), (0, 80), (1, 5), (0, 70)], &[0, 5]);
        for (request, _, _) in &asked {
            assert!(!matches!(request, Request::SelectParent(_)));
            assert!(!matches!(request, Request::Crossover(_, _, _)));
            assert!(!matches!(request, Request::MergeWithIndividual(_)));
        }
        assert_eq!(c.population.len(), 0);
        assert_eq!(c.phase, Phase::Done(Stop::RunLimitReached));
        assert_eq!(c.run, 26);
        let merges = asked.iter().filter(|a| a.0 == Request::MergeWithBest).count();
        assert_eq!(merges, 24);
    }
}

#[test]
fn the_seed_advances_by_one_with_every_run() {
    let mut c = Controller::new(config(0, 4, 100), i64::MIN);
    let asked = drive(&mut c, &[(0, 90)], &[0, 5]);
    let clocks: Vec<(u32, u64)> = asked
        .iter()
        .filter(|a| a.0 == Request::ReadClock)
        .map(|a| (a.1, a.2))
        .collect();
    assert_eq!(clocks, vec![(7, 1), (8, 2), (9, 3), (10, 4)]);
    assert_eq!(c.seed, 11);
    assert_eq!(c.run, 5);
}

#[test]
fn the_seed_wraps_round() {
    let mut cfg = config(0, 2, 100);
    cfg.seed = u32::MAX;
    let mut c = Controller::new(cfg, i64::MIN);
    c.step(Event::Start);
    c.step(Event::Clock(0));
    let s = c.step(tour(0, 1));
    assert_eq!(s.effects.reseed, Some(0));
    assert_eq!(c.seed, 0);
}

#[test]
fn two_controllers_with_the_same_collaborators_do_the_same() {
    let mut cfg = config(3, 12, 100);
    cfg.stop_at_optimum = true;
    let costs = [(2, 50), (0, 100), (0, 90), (1, 95), (0, 90), (0, 85), (0, 85)];
    let draws = [0, 0, 20, 12, 13, 1];
    let mut a = Controller::new(cfg, 10);
    let mut b = Controller::new(cfg, 10);
    let asked_a = drive(&mut a, &costs, &draws);
    let asked_b = drive(&mut b, &costs, &draws);
    assert_eq!(asked_a, asked_b);
    assert_eq!(a.seed, b.seed);
    assert_eq!(a.run, b.run);
    assert_eq!(a.best.fitness(), b.best.fitness());
    assert_eq!(a.population.len(), b.population.len());
    for i in 0..a.population.len() {
        assert_eq!(a.population.fitness(i), b.population.fitness(i));
    }
    assert!(asked_a.iter().any(|r| matches!(r.0, Request::Crossover(_, _, _))));
}

#[test]
fn the_best_known_solution_never_gets_worse() {
    let mut c = Controller::new(config(2, 8, 100), i64::MIN);
    let costs = [(3, 10), (1, 50), (2, 0), (1, 60), (0, 99), (0, 98), (5, 0), (0, 99)];
    let mut searches = 0;
    let mut draws: u64 = 0;
    let mut step = c.step(Event::Start);
    let mut before = c.best.fitness();
    loop {
        let event = match step.request {
            Request::ReadClock => Event::Clock(0),
            Request::LocalSearch => {
                searches += 1;
                tour(costs[searches - 1].0, costs[searches - 1].1)
            }
            Request::MergeWithIndividual(_) | Request::MergeWithBest => tour(9, 9),
            Request::SelectParent(_) => {
                draws += 5;
                Event::Drawn(draws)
            }
            Request::Crossover(_, _, _) => Event::Crossed,
            Request::Start => Event::Start,
            Request::Stop(_) => break,
        };
        step = c.step(event);
        assert!(!c.best.fitness().is_larger(&before));
        if step.effects.new_best {
            assert!(c.best.fitness().is_smaller(&before));
        } else {
            assert_eq!(c.best.fitness(), before);
        }
        before = c.best.fitness();
    }
    assert_eq!(c.best.fitness(), Fitness::new(0, 98));
    assert_eq!(searches, 8);
}

#[test]
fn the_population_fills_then_crosses_over() {
    let mut c = Controller::new(config(2, 5, 100), i64::MIN);
    assert_eq!(c.step(Event::Start).request, Request::ReadClock);
    assert_eq!(c.step(Event::Clock(0)).request, Request::LocalSearch);
    let s = c.step(tour(0, 100));
    assert_eq!(s.effects.admission, Admission::Added);
    assert!(s.effects.new_best);
    assert!(s.effects.run_closed);
    assert_eq!(s.effects.reseed, Some(8));
    assert_eq!(s.request, Request::ReadClock);
    assert_eq!(c.population.len(), 1);
    assert_eq!(c.run, 2);

    assert_eq!(c.step(Event::Clock(1)).request, Request::LocalSearch);
    let s = c.step(tour(0, 95));
    assert_eq!(s.request, Request::MergeWithIndividual(0));
    assert!(!s.effects.run_closed);
    let s = c.step(tour(0, 90));
    assert!(s.effects.merge_improved);
    assert_eq!(s.effects.admission, Admission::Added);
    assert!(s.effects.new_best);
    assert_eq!(s.effects.reseed, None);
    assert_eq!(s.request, Request::SelectParent(2));
    assert_eq!(c.current.fitness(), Fitness::new(0, 90));
    assert_eq!(c.population.fitness(0), Fitness::new(0, 90));
    assert_eq!(c.population.fitness(1), Fitness::new(0, 100));
    assert_eq!(c.run, 2);
    assert_eq!(c.seed, 8);

    assert_eq!(c.step(Event::Drawn(5)).request, Request::SelectParent(2));
    assert_eq!(c.phase, Phase::Iterating(Pending::SecondParent(1)));
    assert_eq!(c.step(Event::Drawn(7)).request, Request::SelectParent(2));
    assert_eq!(c.step(Event::Drawn(8 * 1000 + 6)).request, Request::SelectParent(2));
    assert_eq!(c.phase, Phase::Iterating(Pending::SecondParent(1)));
    assert_eq!(c.step(Event::Drawn(4)).request, Request::Crossover(1, 0, true));
    let s = c.step(Event::Crossed);
    assert_eq!(s.effects.reseed, Some(9));
    assert!(!s.effects.run_closed);
    assert_eq!(s.request, Request::ReadClock);
    assert_eq!(c.run, 3);
}

#[test]
fn a_merge_that_is_no_better_is_dropped() {
    let mut c = Controller::new(config(0, 5, 100), i64::MIN);
    c.step(Event::Start);
    c.step(Event::Clock(0));
    c.step(tour(0, 50));
    c.step(Event::Clock(0));
    assert_eq!(c.step(tour(0, 60)).request, Request::MergeWithBest);
    let s = c.step(Event::Tour(Individual::new(0, 60, vec![3, 2, 1])));
    assert!(!s.effects.merge_improved);
    assert!(!s.effects.new_best);
    assert_eq!(c.current.tour, vec![1, 2, 3]);
    assert_eq!(c.best.fitness(), Fitness::new(0, 50));
    c.step(Event::Clock(0));
    c.step(tour(1, 0));
    let s = c.step(Event::Tour(Individual::new(0, 40, vec![3, 2, 1])));
    assert!(s.effects.merge_improved);
    assert!(s.effects.new_best);
    assert_eq!(c.current.tour, vec![3, 2, 1]);
    assert_eq!(c.best.fitness(), Fitness::new(0, 40));
    assert_eq!(c.best.tour, vec![3, 2, 1]);
}

#[test]
fn a_makespan_problem_is_never_merged() {
    let mut cfg = config(3, 3, 100);
    cfg.makespan = true;
    let mut c = Controller::new(cfg, i64::MIN);
    let asked = drive(&mut c, &[(0, 5), (0, 4)], &[0, 5]);
    for (request, _, _) in &asked {
        assert!(!matches!(request, Request::MergeWithIndividual(_) | Request::MergeWithBest));
    }
    assert_eq!(c.population.len(), 0);
    assert_eq!(c.run, 4);
}

#[test]
fn a_feasible_tour_lowers_the_bound_to_its_cost() {
    let mut c = Controller::new(config(0, 5, 100), 100);
    c.step(Event::Start);
    c.step(Event::Clock(0));
    let s = c.step(tour(1, 90));
    assert!(!s.effects.new_optimum);
    assert_eq!(c.optimum, 100);
    c.step(Event::Clock(0));
    c.step(tour(0, 90));
    let s = c.step(tour(0, 90));
    assert!(s.effects.new_optimum);
    assert_eq!(c.optimum, 90);
}

#[test]
fn a_penalized_minimax_problem_lowers_the_bound_to_the_penalty() {
    let mut cfg = config(0, 5, 100);
    cfg.penalized = true;
    cfg.objective = Objective::MinMax;
    let mut c = Controller::new(cfg, 100);
    c.step(Event::Start);
    c.step(Event::Clock(0));
    let s = c.step(tour(30, 5));
    assert!(s.effects.new_optimum);
    assert_eq!(c.optimum, 30);
    let mut cfg = config(0, 5, 100);
    cfg.objective = Objective::MinMax;
    let mut d = Controller::new(cfg, 100);
    d.step(Event::Start);
    d.step(Event::Clock(0));
    let s = d.step(tour(30, 5));
    assert!(!s.effects.new_optimum);
    assert_eq!(d.optimum, 100);
}

#[test]
fn the_loop_stops_at_the_optimum() {
    let mut cfg = config(2, 9, 100);
    cfg.stop_at_optimum = true;
    let mut c = Controller::new(cfg, 50);
    c.step(Event::Start);
    c.step(Event::Clock(0));
    assert_eq!(c.step(tour(0, 60)).request, Request::ReadClock);
    c.step(Event::Clock(0));
    assert_eq!(c.step(tour(0, 50)).request, Request::MergeWithIndividual(0));
    let s = c.step(tour(0, 50));
    assert_eq!(s.request, Request::Stop(Stop::OptimumStop));
    assert_eq!(s.effects.reseed, None);
    assert_eq!(c.runs, 2);
    assert_eq!(c.run, 2);
    assert_eq!(c.seed, 8);
}

#[test]
fn the_loop_does_not_stop_at_the_optimum_where_that_is_not_supported() {
    let mut cfg = config(2, 2, 100);
    cfg.stop_at_optimum = true;
    cfg.problem_type = ProblemType::Trp;
    let mut c = Controller::new(cfg, 50);
    c.step(Event::Start);
    c.step(Event::Clock(0));
    assert_eq!(c.step(tour(0, 50)).request, Request::ReadClock);
    let mut cfg = config(1, 2, 100);
    cfg.stop_at_optimum = true;
    let mut d = Controller::new(cfg, 50);
    d.step(Event::Start);
    d.step(Event::Clock(0));
    assert_eq!(d.step(tour(0, 50)).request, Request::ReadClock);
    let mut cfg = config(2, 2, 100);
    cfg.stop_at_optimum = true;
    cfg.objective = Objective::MinMaxSize;
    let mut e = Controller::new(cfg, 50);
    e.step(Event::Start);
    e.step(Event::Clock(0));
    assert_eq!(e.step(tour(50, 3)).request, Request::Stop(Stop::OptimumStop));
}

#[test]
fn an_event_that_is_no_answer_changes_nothing() {
    let mut c = Controller::new(config(2, 5, 100), i64::MIN);
    assert_eq!(c.step(Event::Clock(3)).request, Request::Start);
    assert_eq!(c.phase, Phase::Init);
    c.step(Event::Start);
    let s = c.step(tour(0, 1));
    assert_eq!(s.request, Request::ReadClock);
    assert_eq!(s.effects.reseed, None);
    assert!(!s.effects.run_closed);
    assert_eq!(c.run, 1);
    assert_eq!(c.best.fitness(), Fitness::new(i64::MAX, i64::MAX));
    c.step(Event::Clock(200));
    assert_eq!(c.step(Event::Start).request, Request::Stop(Stop::TimeLimitHit));
}

#[test]
fn hamiltonian_problems_register_no_edges() {
    let mut cfg = config(2, 5, 100);
    cfg.problem_type = ProblemType::Hcp;
    let mut c = Controller::new(cfg, i64::MIN);
    let asked = drive(&mut c, &[(0, 9), (0, 8), (0, 7)], &[0, 5]);
    assert!(asked.iter().any(|a| a.0 == Request::Crossover(0, 1, false)));
    assert!(!asked.iter().any(|a| matches!(a.0, Request::Crossover(_, _, true))));
}

#[test]
fn a_crossover_comes_once_the_runs_are_twice_the_population() {
    let mut c = Controller::new(config(3, 9, 100), i64::MIN);
    let asked = drive(&mut c, &[(0, 9), (0, 8), (0, 9), (0, 8)], &[6, 0]);
    let first = asked.iter().find(|a| matches!(a.0, Request::SelectParent(_))).unwrap();
    assert_eq!(first.0, Request::SelectParent(2));
    assert_eq!(first.2, 6);
    assert_eq!(c.population.len(), 2);
}

#[test]
fn a_full_population_reports_whom_the_tour_of_the_run_replaced() {
    let mut c = Controller::new(config(2, 9, 100), i64::MIN);
    let mut asked = Vec::new();
    let costs = [(0, 100), (2, 50), (1, 95), (3, 0)];
    let mut searches = 0;
    let mut draws: u64 = 0;
    let mut step = c.step(Event::Start);
    while searches < 4 || !step.effects.run_closed {
        let event = match step.request {
            Request::ReadClock => Event::Clock(0),
            Request::LocalSearch => {
                searches += 1;
                tour(costs[searches - 1].0, costs[searches - 1].1)
            }
            Request::MergeWithIndividual(_) => tour(c.current.penalty, c.current.cost),
            Request::SelectParent(_) => {
                draws += 5;
                Event::Drawn(draws)
            }
            Request::Crossover(_, _, _) => Event::Crossed,
            _ => unreachable!(),
        };
        step = c.step(event);
        if step.effects.run_closed {
            asked.push(step.effects.admission);
        }
    }
    assert_eq!(
        asked,
        vec![Admission::Added, Admission::Added, Admission::Replaced(1), Admission::Unchanged]
    );
    assert_eq!(c.population.fitness(0), Fitness::new(0, 100));
    assert_eq!(c.population.fitness(1), Fitness::new(1, 95));
    assert_eq!(c.best.fitness(), Fitness::new(0, 100));
}

#[test]
fn crossover_edges_have_the_highest_priority() {
    assert_eq!(lkh::controller::CROSSOVER_EDGE_PRIORITY, i32::MAX);
    assert_eq!(lkh::controller::SELECTION_BIAS_NUMERATOR, 5);
    assert_eq!(lkh::controller::SELECTION_BIAS_DENOMINATOR, 4);
}
