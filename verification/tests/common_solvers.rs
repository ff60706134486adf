use annealing::chain::Chain;
use annealing::cooler::{CoolingSchedule, StepsCooler};
use annealing::energy::EnergyType;
use annealing::mir::Mir;
use annealing::params::TunerParameter;
use annealing::problem::{Host, Problem, SolverError};
use annealing::seqsa::Seqsa;
use annealing::spis::Spis;

/// Energies are the states themselves; each candidate is one above.
#[derive(Clone)]
struct Climb;

impl Problem for Climb {
    type State = i64;

    fn initial_state(&mut self) -> i64 {
        0
    }

    fn rand_state(&mut self) -> i64 {
        0
    }

    fn new_state(&mut self, current: &i64, _max_steps: u64, _step: u64) -> i64 {
        *current + 1
    }

    fn energy(&mut self, state: &i64, _worker: usize) -> Option<i64> {
        Some(*state)
    }

    fn neigh_space(&mut self, state: &i64) -> Vec<i64> {
        if *state == 0 {
            vec![1]
        } else {
            Vec::new()
        }
    }
}

/// Every state has the same energy.
#[derive(Clone)]
struct Flat;

impl Problem for Flat {
    type State = u64;

    fn initial_state(&mut self) -> u64 {
        0
    }

    fn rand_state(&mut self) -> u64 {
        0
    }

    fn new_state(&mut self, current: &u64, _max_steps: u64, _step: u64) -> u64 {
        *current + 1
    }

    fn energy(&mut self, _state: &u64, _worker: usize) -> Option<i64> {
        Some(5)
    }

    fn neigh_space(&mut self, _state: &u64) -> Vec<u64> {
        Vec::new()
    }
}

/// Only the initial state can be evaluated.
#[derive(Clone)]
struct Barren;

impl Problem for Barren {
    type State = u64;

    fn initial_state(&mut self) -> u64 {
        7
    }

    fn rand_state(&mut self) -> u64 {
        7
    }

    fn new_state(&mut self, current: &u64, _max_steps: u64, _step: u64) -> u64 {
        *current + 1
    }

    fn energy(&mut self, state: &u64, _worker: usize) -> Option<i64> {
        if *state == 7 {
            Some(42)
        } else {
            None
        }
    }

    fn neigh_space(&mut self, _state: &u64) -> Vec<u64> {
        vec![8, 9, 10]
    }
}

/// No state can be evaluated.
#[derive(Clone)]
struct Void;

impl Problem for Void {
    type State = u64;

    fn initial_state(&mut self) -> u64 {
        0
    }

    fn rand_state(&mut self) -> u64 {
        0
    }

    fn new_state(&mut self, current: &u64, _max_steps: u64, _step: u64) -> u64 {
        *current
    }

    fn energy(&mut self, _state: &u64, _worker: usize) -> Option<i64> {
        None
    }

    fn neigh_space(&mut self, _state: &u64) -> Vec<u64> {
        Vec::new()
    }
}

/// Each worker measures an energy of its own, whatever the state.
#[derive(Clone)]
struct PerWorker {
    energies: Vec<i64>,
}

impl Problem for PerWorker {
    type State = u64;

    fn initial_state(&mut self) -> u64 {
        0
    }

    fn rand_state(&mut self) -> u64 {
        1
    }

    fn new_state(&mut self, current: &u64, _max_steps: u64, _step: u64) -> u64 {
        *current
    }

    fn energy(&mut self, _state: &u64, worker: usize) -> Option<i64> {
        Some(self.energies[worker])
    }

    fn neigh_space(&mut self, _state: &u64) -> Vec<u64> {
        Vec::new()
    }
}

/// A host whose uniform draw is always `u`; temperatures are hundredths.
struct FixedDraw {
    u: f64,
    draws: u64,
    updates: u64,
    last_seen: Option<(i64, i64, u64, usize)>,
}

impl FixedDraw {
    fn new(u: f64) -> Self {
        FixedDraw { u, draws: 0, updates: 0, last_seen: None }
    }
}

impl<S> Host<S> for FixedDraw {
    fn draw(&mut self, delta: i128, temperature: u64, _worker: usize) -> bool {
        self.draws += 1;
        self.u <= (delta as f64 / (temperature as f64 / 100.0)).exp()
    }

    fn exponential(&mut self, cooler: &StepsCooler, step: u64) -> u64 {
        let ratio = cooler.min_temp as f64 / cooler.max_temp as f64;
        (cooler.max_temp as f64 * ratio.powf(step as f64 / cooler.max_steps as f64)) as u64
    }

    fn send_update(
        &mut self,
        _temperature: u64,
        _elapsed_ns: u64,
        last_energy: i64,
        _last_state: &S,
        best_energy: i64,
        _best_state: &S,
        elapsed_steps: u64,
        worker: usize,
    ) {
        self.updates += 1;
        self.last_seen = Some((last_energy, best_energy, elapsed_steps, worker));
    }
}

/// A host that turns down every candidate that is no improvement.
struct Strict;

impl<S> Host<S> for Strict {
    fn draw(&mut self, _delta: i128, _temperature: u64, _worker: usize) -> bool {
        false
    }

    fn exponential(&mut self, cooler: &StepsCooler, _step: u64) -> u64 {
        cooler.min_temp
    }

    fn send_update(
        &mut self,
        _t: u64,
        _ns: u64,
        _le: i64,
        _ls: &S,
        _be: i64,
        _bs: &S,
        _s: u64,
        _w: usize,
    ) {
    }
}

/// A host that lets every candidate through.
struct Lenient;

impl<S> Host<S> for Lenient {
    fn draw(&mut self, _delta: i128, _temperature: u64, _worker: usize) -> bool {
        true
    }

    fn exponential(&mut self, cooler: &StepsCooler, _step: u64) -> u64 {
        cooler.max_temp
    }

    fn send_update(
        &mut self,
        _t: u64,
        _ns: u64,
        _le: i64,
        _ls: &S,
        _be: i64,
        _bs: &S,
        _s: u64,
        _w: usize,
    ) {
    }
}

fn params(max_step: u64, cooling: CoolingSchedule, energy: EnergyType) -> TunerParameter {
    TunerParameter { max_step, min_temp: 1, max_temp: 100, cooling, energy }
}

fn seqsa_chain<P: Problem, H: Host<P::State>>(
    p: TunerParameter,
    problem: &mut P,
    host: &mut H,
) -> Chain<P::State> {
    assert!(p.is_valid());
    Seqsa { tuner_params: p }.anneal(problem, host).unwrap()
}

#[test]
fn seqsa_climbs_every_step_under_throughput() {
    let p = params(10, CoolingSchedule::Linear, EnergyType::Throughput);
    let mut host = FixedDraw::new(0.5);
    let chain = seqsa_chain(p, &mut Climb, &mut host);
    assert_eq!(chain.energy, 10);
    assert_eq!(chain.state, 10);
    assert_eq!(chain.accepted, 10);
    assert_eq!(chain.rejected, 0);
    assert_eq!(chain.steps, 10);
    assert_eq!(host.draws, 0);
    assert_eq!(host.updates, 10);
    assert_eq!(host.last_seen, Some((10, 10, 9, 0)));
}

#[test]
fn seqsa_stays_put_under_latency() {
    let p = params(10, CoolingSchedule::Linear, EnergyType::Latency);
    let mut host = FixedDraw::new(0.999);
    let chain = seqsa_chain(p, &mut Climb, &mut host);
    assert_eq!(chain.energy, 0);
    assert_eq!(chain.state, 0);
    assert_eq!(chain.accepted, 0);
    assert_eq!(chain.rejected, 10);
    assert_eq!(host.draws, 10);
    assert_eq!(host.last_seen, Some((1, 0, 9, 0)));
}

#[test]
fn seqsa_solve_returns_last_accepted() {
    let p = params(10, CoolingSchedule::BasicExp, EnergyType::Throughput);
    let best = Seqsa { tuner_params: p }.solve(&mut Climb, &mut Strict, 3).unwrap();
    assert_eq!(best.energy, 10);
    assert_eq!(best.state, 10);
}

#[test]
fn seqsa_converges_after_401_rejections() {
    let p = params(500, CoolingSchedule::Linear, EnergyType::Throughput);
    let chain = seqsa_chain(p, &mut Flat, &mut Strict);
    assert_eq!(chain.energy, 5);
    assert_eq!(chain.steps, 401);
    assert_eq!(chain.rejected, 401);
    assert_eq!(chain.accepted, 0);
    assert_eq!(chain.state, 0);
}

#[test]
fn seqsa_equal_energy_passes_the_exact_test() {
    // exp(0) is one, and no uniform draw exceeds it.
    let p = params(500, CoolingSchedule::Exponential, EnergyType::Throughput);
    let mut host = FixedDraw::new(0.999);
    let chain = seqsa_chain(p, &mut Flat, &mut host);
    assert_eq!(chain.energy, 5);
    assert_eq!(chain.steps, 500);
    assert_eq!(chain.accepted, 500);
    assert_eq!(chain.rejected, 0);
}

#[test]
fn seqsa_short_run_ends_at_step_limit() {
    let p = params(10, CoolingSchedule::Linear, EnergyType::Latency);
    let chain = seqsa_chain(p, &mut Climb, &mut Strict);
    assert_eq!(chain.steps, 10);
    assert_eq!(chain.rejected, 10);
    let p = params(1000, CoolingSchedule::Linear, EnergyType::Latency);
    let chain = seqsa_chain(p, &mut Climb, &mut Strict);
    assert_eq!(chain.steps, 401);
}

#[test]
fn seqsa_skips_infeasible_candidates() {
    let p = params(50, CoolingSchedule::Linear, EnergyType::Throughput);
    let mut host = FixedDraw::new(0.0);
    let chain = seqsa_chain(p, &mut Barren, &mut host);
    assert_eq!(chain.accepted, 0);
    assert_eq!(chain.rejected, 0);
    assert_eq!(chain.state, 7);
    assert_eq!(chain.energy, 42);
    assert_eq!(chain.steps, 50);
    assert_eq!(host.draws, 0);
    assert_eq!(host.updates, 50);
    assert_eq!(host.last_seen, Some((42, 42, 49, 0)));
}

#[test]
fn seqsa_tolerated_accept_keeps_rejection_count() {
    // Worse candidates under latency, all let through: nothing resets or
    // raises the count of rejections.
    let p = params(20, CoolingSchedule::Linear, EnergyType::Latency);
    let chain = seqsa_chain(p, &mut Climb, &mut Lenient);
    assert_eq!(chain.accepted, 20);
    assert_eq!(chain.rejected, 0);
    assert_eq!(chain.energy, 20);
}

#[test]
fn seqsa_is_deterministic() {
    let p = params(200, CoolingSchedule::Linear, EnergyType::Latency);
    let a = seqsa_chain(p, &mut Climb, &mut FixedDraw::new(0.3));
    let b = seqsa_chain(p, &mut Climb, &mut FixedDraw::new(0.3));
    assert_eq!(a.state, b.state);
    assert_eq!(a.energy, b.energy);
    assert_eq!(a.accepted, b.accepted);
    assert_eq!(a.rejected, b.rejected);
    assert_eq!(a.steps, b.steps);
}

#[test]
fn seqsa_infeasible_initial_is_an_error() {
    let p = params(10, CoolingSchedule::Linear, EnergyType::Throughput);
    let s = Seqsa { tuner_params: p };
    assert_eq!(s.anneal(&mut Void, &mut Strict).unwrap_err(), SolverError::InfeasibleInitial);
    assert_eq!(s.solve(&mut Void, &mut Strict, 1).unwrap_err(), SolverError::InfeasibleInitial);
}

#[test]
fn mir_returns_best_worker() {
    let p = params(20, CoolingSchedule::Linear, EnergyType::Throughput);
    let mut problem = PerWorker { energies: vec![7, 3, 10, 5] };
    let best = Mir { tuner_params: p }.solve(&mut problem, &mut Strict, 4).unwrap();
    assert_eq!(best.energy, 10);
    let p = params(20, CoolingSchedule::Linear, EnergyType::Latency);
    let best = Mir { tuner_params: p }.solve(&mut problem, &mut Strict, 4).unwrap();
    assert_eq!(best.energy, 3);
}

#[test]
fn mir_runs_one_result_per_worker() {
    let p = params(20, CoolingSchedule::Linear, EnergyType::Throughput);
    let mut problem = PerWorker { energies: vec![7, 3, 10, 5] };
    let results = Mir { tuner_params: p }.run_workers(&mut problem, &mut Strict, 4).unwrap();
    let got: Vec<i64> = results.get_coll().iter().map(|r| r.energy).collect();
    assert_eq!(got, vec![7, 3, 10, 5]);
}

#[test]
fn mir_seed_pool_has_one_state_per_worker() {
    let mut problem = PerWorker { energies: vec![1] };
    let pool = Mir::seed_pool(&mut problem, 4);
    assert_eq!(pool.items, vec![0, 1, 1, 1]);
    let pool = Mir::seed_pool(&mut problem, 1);
    assert_eq!(pool.items, vec![0]);
}

#[test]
fn mir_worker_runs_one_step_past_the_limit() {
    let p = params(10, CoolingSchedule::Linear, EnergyType::Throughput);
    let chain = Mir { tuner_params: p }.run_worker(&mut Climb, &mut Strict, 0, 0).unwrap();
    assert_eq!(chain.steps, 11);
    assert_eq!(chain.energy, 11);
    assert_eq!(chain.accepted, 11);
}

#[test]
fn mir_worker_converges_after_301_rejections() {
    let p = params(500, CoolingSchedule::BasicExp, EnergyType::Throughput);
    let chain = Mir { tuner_params: p }.run_worker(&mut Flat, &mut Strict, 0, 0).unwrap();
    assert_eq!(chain.steps, 301);
    assert_eq!(chain.rejected, 301);
    assert_eq!(chain.energy, 5);
}

#[test]
fn mir_single_worker_matches_seqsa() {
    let p = params(50, CoolingSchedule::Linear, EnergyType::Latency);
    let one = Mir { tuner_params: p }.solve(&mut Flat, &mut FixedDraw::new(0.4), 1).unwrap();
    let seq = Seqsa { tuner_params: p }.solve(&mut Flat, &mut FixedDraw::new(0.4), 1).unwrap();
    assert_eq!(one.energy, seq.energy);
}

#[test]
fn mir_infeasible_initial_is_an_error() {
    let p = params(10, CoolingSchedule::Linear, EnergyType::Throughput);
    let r = Mir { tuner_params: p }.solve(&mut Void, &mut Strict, 2);
    assert_eq!(r.unwrap_err(), SolverError::InfeasibleInitial);
}

fn spis(max_steps: usize, energy_type: EnergyType) -> Spis {
    let s = Spis {
        min_temp: 1,
        max_temp: 100,
        max_steps,
        cooling_schedule: CoolingSchedule::Linear,
        energy_type,
    };
    assert!(s.is_valid());
    s
}

#[test]
fn spis_takes_the_one_improvement_and_stops() {
    let best = spis(100, EnergyType::Throughput).solve(&mut Climb, &mut Strict, 0).unwrap();
    assert_eq!(best.energy, 1);
    assert_eq!(best.state, 1);
}

#[test]
fn spis_empty_neighbourhood_returns_initial() {
    let best = spis(100, EnergyType::Throughput).solve(&mut Flat, &mut Strict, 0).unwrap();
    assert_eq!(best.energy, 5);
    assert_eq!(best.state, 0);
}

#[test]
fn spis_skips_infeasible_neighbours() {
    let best = spis(5, EnergyType::Throughput).solve(&mut Barren, &mut Lenient, 0).unwrap();
    assert_eq!(best.energy, 42);
    assert_eq!(best.state, 7);
}

#[test]
fn spis_infeasible_initial_is_an_error() {
    let r = spis(5, EnergyType::Latency).solve(&mut Void, &mut Strict, 0);
    assert_eq!(r.unwrap_err(), SolverError::InfeasibleInitial);
}

/// Energies are the states themselves; the neighbours are handed in.
#[derive(Clone)]
struct Field {
    neighbours: Vec<i64>,
}

impl Problem for Field {
    type State = i64;

    fn initial_state(&mut self) -> i64 {
        100
    }

    fn rand_state(&mut self) -> i64 {
        100
    }

    fn new_state(&mut self, current: &i64, _max_steps: u64, _step: u64) -> i64 {
        *current
    }

    fn energy(&mut self, state: &i64, _worker: usize) -> Option<i64> {
        if *state < 0 {
            None
        } else {
            Some(*state)
        }
    }

    fn neigh_space(&mut self, state: &i64) -> Vec<i64> {
        if *state == 100 {
            self.neighbours.clone()
        } else {
            Vec::new()
        }
    }
}

fn round_parts() -> (annealing::spis::RoundCounters, annealing::cooler::Temperature) {
    let cooler = StepsCooler { max_steps: 100, min_temp: 1, max_temp: 100 };
    (
        annealing::spis::RoundCounters::new(),
        annealing::cooler::Temperature::new(cooler, CoolingSchedule::Linear),
    )
}

#[test]
fn spis_explore_drains_the_pool_from_its_end() {
    let s = spis(100, EnergyType::Throughput);
    let (mut counters, mut temperature) = round_parts();
    let mut pool = annealing::pool::NeighborhoodsPool::new(vec![105, -1, 90, 101]);
    let begin = annealing::results::MrResult { energy: 100, state: 100 };
    let mut problem = Field { neighbours: Vec::new() };
    let end =
        s.explore(&mut problem, &mut Strict, 0, begin, &mut pool, &mut counters, &mut temperature, 0);
    // 101 improves, 90 is turned down, -1 has no energy, 105 improves.
    assert_eq!((end.energy, end.state), (105, 105));
    assert_eq!(pool.size(), 0);
    assert_eq!(counters.accepted.get(), 2);
    assert_eq!(counters.rejected.get(), 0);
    assert_eq!(counters.elapsed_steps.get(), 4);
    assert_eq!(temperature.get(), 100 - (99 * 4) / 100);
}

#[test]
fn spis_explore_leaves_on_the_fiftieth_rejection() {
    let s = spis(1000, EnergyType::Throughput);
    let (mut counters, mut temperature) = round_parts();
    let mut pool = annealing::pool::NeighborhoodsPool::new(vec![1; 60]);
    let mut problem = Field { neighbours: Vec::new() };
    let begin = annealing::results::MrResult { energy: 100, state: 100 };
    let end =
        s.explore(&mut problem, &mut Strict, 0, begin, &mut pool, &mut counters, &mut temperature, 0);
    assert_eq!((end.energy, end.state), (100, 100));
    assert_eq!(pool.size(), 10);
    assert_eq!(counters.rejected.get(), 50);
    assert_eq!(counters.elapsed_steps.get(), 49);
    // The next worker is past the exit value and drains the rest.
    let begin = annealing::results::MrResult { energy: 100, state: 100 };
    let end =
        s.explore(&mut problem, &mut Strict, 1, begin, &mut pool, &mut counters, &mut temperature, 0);
    assert_eq!((end.energy, end.state), (100, 100));
    assert_eq!(pool.size(), 0);
    assert_eq!(counters.rejected.get(), 60);
    assert_eq!(counters.elapsed_steps.get(), 59);
}

#[test]
fn spis_round_picks_the_best_worker() {
    let s = spis(100, EnergyType::Throughput);
    let (mut counters, mut temperature) = round_parts();
    let mut problem = Field { neighbours: vec![103, 99, 101] };
    let master = annealing::results::MrResult { energy: 100, state: 100 };
    let next =
        s.round(&mut problem, &mut Strict, 3, &master, &mut counters, &mut temperature, 0);
    assert_eq!((next.energy, next.state), (103, 103));
    assert_eq!(counters.elapsed_steps.get(), 3);
    assert_eq!(counters.accepted.get(), 2);
}

#[test]
fn spis_round_without_neighbours_keeps_master() {
    let s = spis(100, EnergyType::Latency);
    let (mut counters, mut temperature) = round_parts();
    let mut problem = Field { neighbours: Vec::new() };
    let master = annealing::results::MrResult { energy: 100, state: 100 };
    let next =
        s.round(&mut problem, &mut Lenient, 2, &master, &mut counters, &mut temperature, 0);
    assert_eq!((next.energy, next.state), (100, 100));
    assert_eq!(counters.elapsed_steps.get(), 0);
}

#[test]
fn spis_master_can_worsen_when_every_worker_drifts() {
    // A single worker that lets a worse neighbour through hands back less
    // than the master it began with.
    let s = spis(100, EnergyType::Throughput);
    let (mut counters, mut temperature) = round_parts();
    let mut problem = Field { neighbours: vec![40] };
    let master = annealing::results::MrResult { energy: 100, state: 100 };
    let next =
        s.round(&mut problem, &mut Lenient, 1, &master, &mut counters, &mut temperature, 0);
    assert_eq!(next.energy, 40);
}

#[test]
fn spis_solve_follows_improving_neighbours() {
    let mut problem = Field { neighbours: vec![150, 120, 130] };
    let best = spis(100, EnergyType::Throughput).solve(&mut problem, &mut Strict, 0).unwrap();
    assert_eq!((best.energy, best.state), (150, 150));
    let best = spis(100, EnergyType::Latency).solve(&mut problem, &mut Strict, 0).unwrap();
    assert_eq!((best.energy, best.state), (100, 100));
}

#[test]
fn stop_rules_read_the_counters() {
    let mut chain: Chain<u8> = Chain::new(0, 0);
    let p = params(10, CoolingSchedule::Linear, EnergyType::Throughput);
    let m = Mir { tuner_params: p };
    assert!(!Seqsa::has_converged(&chain));
    assert!(!m.has_finished(&chain));
    chain.rejected = 301;
    assert!(!Seqsa::has_converged(&chain));
    assert!(m.has_finished(&chain));
    chain.rejected = 400;
    assert!(!Seqsa::has_converged(&chain));
    chain.rejected = 401;
    assert!(Seqsa::has_converged(&chain));
    chain.rejected = 0;
    chain.steps = 10;
    assert!(!m.has_finished(&chain));
    chain.steps = 11;
    assert!(m.has_finished(&chain));
}

#[test]
fn exponential_schedule_comes_from_the_host() {
    let cooler = StepsCooler { max_steps: 10, min_temp: 1, max_temp: 100 };
    let mut t = annealing::cooler::Temperature::new(cooler, CoolingSchedule::Exponential);
    let mut host = FixedDraw::new(0.5);
    annealing::problem::cool::<u8, FixedDraw>(&mut host, &mut t, 5);
    assert_eq!(t.get(), 10);
    annealing::problem::cool::<u8, FixedDraw>(&mut host, &mut t, 10);
    assert_eq!(t.get(), 1);
    let mut t = annealing::cooler::Temperature::new(cooler, CoolingSchedule::Linear);
    annealing::problem::cool::<u8, FixedDraw>(&mut host, &mut t, 5);
    assert_eq!(t.get(), 51);
}

#[test]
fn mir_needs_room_for_the_last_step() {
    let mut p = params(10, CoolingSchedule::Linear, EnergyType::Throughput);
    assert!(Mir { tuner_params: p }.is_valid());
    p.max_step = u64::MAX;
    assert!(p.is_valid());
    assert!(!Mir { tuner_params: p }.is_valid());
    p.max_step = 0;
    assert!(!Mir { tuner_params: p }.is_valid());
}

#[test]
fn spis_explore_reports_every_candidate() {
    let s = spis(100, EnergyType::Throughput);
    let (mut counters, mut temperature) = round_parts();
    let mut pool = annealing::pool::NeighborhoodsPool::new(vec![-1, 90, 101]);
    let begin = annealing::results::MrResult { energy: 100, state: 100 };
    let mut problem = Field { neighbours: Vec::new() };
    let mut host = FixedDraw::new(0.999);
    let end =
        s.explore(&mut problem, &mut host, 3, begin, &mut pool, &mut counters, &mut temperature, 0);
    assert_eq!((end.energy, end.state), (101, 101));
    assert_eq!(host.updates, 3);
    assert_eq!(host.draws, 1);
    // The last candidate had no energy: the last measured energy stays.
    assert_eq!(host.last_seen, Some((90, 101, 2, 3)));
}

#[test]
fn mir_worker_reports_every_step() {
    let p = params(10, CoolingSchedule::Linear, EnergyType::Throughput);
    let mut host = FixedDraw::new(0.5);
    let chain = Mir { tuner_params: p }.run_worker(&mut Climb, &mut host, 2, 0).unwrap();
    assert_eq!(chain.steps, 11);
    assert_eq!(host.updates, 11);
    assert_eq!(host.last_seen, Some((11, 11, 10, 2)));
}

#[test]
fn seqsa_runs_from_a_measured_start() {
    let p = params(10, CoolingSchedule::Linear, EnergyType::Throughput);
    let s = Seqsa { tuner_params: p };
    let r = s.anneal_from(&mut Climb, &mut Strict, 5, None);
    assert_eq!(r.unwrap_err(), SolverError::InfeasibleInitial);
    let chain = s.anneal_from(&mut Climb, &mut Strict, 5, Some(5)).unwrap();
    assert_eq!((chain.state, chain.energy, chain.accepted, chain.steps), (15, 15, 10, 10));
    let p = params(10, CoolingSchedule::Linear, EnergyType::Latency);
    let chain = Seqsa { tuner_params: p }.anneal_from(&mut Climb, &mut Strict, 5, Some(5)).unwrap();
    assert_eq!((chain.state, chain.energy, chain.accepted, chain.rejected), (5, 5, 0, 10));
}

#[test]
fn mir_worker_runs_from_a_measured_start() {
    let p = params(10, CoolingSchedule::Linear, EnergyType::Throughput);
    let m = Mir { tuner_params: p };
    let r = m.run_worker_from(&mut Climb, &mut Strict, 1, 5, None, 0);
    assert_eq!(r.unwrap_err(), SolverError::InfeasibleInitial);
    let chain = m.run_worker_from(&mut Climb, &mut Strict, 1, 5, Some(5), 0).unwrap();
    assert_eq!((chain.state, chain.energy, chain.accepted, chain.steps), (16, 16, 11, 11));
}

#[test]
fn spis_searches_from_a_measured_start() {
    let mut problem = Field { neighbours: vec![150, 120, 130] };
    let s = spis(100, EnergyType::Throughput);
    let r = s.solve_from(&mut problem, &mut Strict, 100, None);
    assert_eq!(r.unwrap_err(), SolverError::InfeasibleInitial);
    let best = s.solve_from(&mut problem, &mut Strict, 100, Some(100)).unwrap();
    assert_eq!((best.energy, best.state), (150, 150));
    // A start away from the one state that has neighbours stays where it is.
    let best = s.solve_from(&mut problem, &mut Strict, 7, Some(7)).unwrap();
    assert_eq!((best.energy, best.state), (7, 7));
}
