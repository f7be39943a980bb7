use simurust::base::{MainSystem, SimSystem, Sink, Source};
use simurust::errors::{NumericError, RunError, WiringError};
use simurust::systems::block::Block;
use simurust::systems::operators::{Adder, Gain, Inverter, Multiplier, Negator};
use simurust::systems::sources::{LinearSource, Polynomial};

type Sys = MainSystem<u64, i64, Block<u64, i64>>;

fn linear(slope: i64, offset: i64, step: u64) -> Block<u64, i64> {
    Block::Linear(LinearSource::from(slope, offset, 0, step).unwrap())
}

fn polynomial(coefficients: Vec<i64>, step: u64) -> Block<u64, i64> {
    Block::Polynomial(Polynomial::from(coefficients, 0, step).unwrap())
}

fn adder(step: u64) -> Block<u64, i64> {
    Block::Adder(Adder::from(0, step).unwrap())
}

#[test]
fn new_graph_is_empty() {
    let sys = Sys::new();
    assert_eq!(sys.len(), 0);
    assert_eq!(sys.time(), 0);
    assert!(!sys.has_started());
}

#[test]
fn regions_follow_registration_order() {
    let mut sys = Sys::new();
    let mut expected_start = 0;
    for k in 0..6u64 {
        let block = if k % 2 == 0 { linear(1, 0, k + 1) } else { adder(k + 1) };
        let index = sys.add_subsystem(block);
        assert_eq!(index as u64, k);
        let placed = sys.get_subsystem(index);
        assert_eq!(placed.get_output_start(), expected_start);
        expected_start += placed.get_dim();
    }
    assert_eq!(sys.len(), 6);
    assert_eq!(expected_start, 6);
    for i in 0..6 {
        assert_eq!(sys.get_outputs(i), vec![0]);
        for j in (i + 1)..6 {
            let a = sys.get_subsystem(i);
            let b = sys.get_subsystem(j);
            assert!(a.get_output_start() + a.get_dim() <= b.get_output_start());
        }
    }
}

#[test]
fn connect_beyond_width_is_out_of_range() {
    let mut sys = Sys::new();
    let a = sys.add_subsystem(linear(1, 5, 1));
    let b = sys.add_subsystem(adder(1));
    assert_eq!(sys.connect(a, 1, b), Err(WiringError::OutOfRange));
    assert_eq!(sys.connect(a, 7, b), Err(WiringError::OutOfRange));
    assert_eq!(sys.connect(a, usize::MAX, b), Err(WiringError::OutOfRange));
    assert_eq!(sys.len(), 2);
    assert_eq!(sys.time(), 0);
    assert!(!sys.has_started());
    assert_eq!(sys.get_outputs(a), vec![0]);
    assert_eq!(sys.get_outputs(b), vec![0]);
    assert_eq!(sys.run_simulation(1), Ok(1));
    assert_eq!(sys.get_outputs(a), vec![6]);
    assert_eq!(sys.get_outputs(b), vec![0]);
}

#[test]
fn connect_out_of_range_wins_over_other_refusals() {
    let mut sys = Sys::new();
    let a = sys.add_subsystem(linear(1, 0, 1));
    assert_eq!(sys.connect(a, 1, 9), Err(WiringError::OutOfRange));
    assert_eq!(sys.run_simulation(1), Ok(1));
    assert_eq!(sys.connect(a, 1, a), Err(WiringError::OutOfRange));
}

#[test]
fn connect_unknown_block() {
    let mut sys = Sys::new();
    let a = sys.add_subsystem(linear(1, 0, 1));
    assert_eq!(sys.connect(3, 0, a), Err(WiringError::UnknownBlock));
    assert_eq!(sys.connect(a, 0, 3), Err(WiringError::UnknownBlock));
    assert_eq!(sys.connect(a, 0, a), Ok(()));
}

#[test]
fn connect_after_the_first_step_is_refused() {
    let mut sys = Sys::new();
    let a = sys.add_subsystem(linear(1, 0, 1));
    let b = sys.add_subsystem(adder(1));
    assert_eq!(sys.connect(a, 0, b), Ok(()));
    assert_eq!(sys.run_simulation(2), Ok(2));
    assert!(sys.has_started());
    assert_eq!(sys.connect(a, 0, b), Err(WiringError::SimulationStarted));
    assert_eq!(sys.run_simulation(3), Ok(3));
    assert_eq!(sys.get_outputs(b), vec![3]);
}

#[test]
fn tie_goes_to_the_lower_index() {
    let mut sys = Sys::new();
    let first = sys.add_subsystem(linear(1, 10, 2));
    let second = sys.add_subsystem(linear(1, 20, 2));
    assert_eq!(sys.get_subsystem(first).get_next_time(), 2);
    assert_eq!(sys.get_subsystem(second).get_next_time(), 2);
    assert_eq!(sys.run_bounded(2, 1), Err(RunError::StepLimit));
    assert_eq!(sys.time(), 2);
    assert_eq!(sys.get_outputs(first), vec![12]);
    assert_eq!(sys.get_outputs(second), vec![0]);
    assert_eq!(sys.get_subsystem(first).get_next_time(), 4);
    assert_eq!(sys.get_subsystem(second).get_next_time(), 2);
    assert_eq!(sys.run_bounded(2, 1), Ok(2));
    assert_eq!(sys.get_outputs(second), vec![22]);
}

#[test]
fn earlier_block_goes_first_whatever_its_index() {
    let mut sys = Sys::new();
    let slow = sys.add_subsystem(linear(1, 0, 5));
    let fast = sys.add_subsystem(linear(1, 0, 3));
    assert_eq!(sys.run_bounded(10, 1), Err(RunError::StepLimit));
    assert_eq!(sys.time(), 3);
    assert_eq!(sys.get_outputs(slow), vec![0]);
    assert_eq!(sys.get_outputs(fast), vec![3]);
}

#[test]
fn same_graph_same_run() {
    let build = || {
        let mut sys = Sys::new();
        let a = sys.add_subsystem(linear(3, 1, 2));
        let b = sys.add_subsystem(polynomial(vec![1, 0, 1], 3));
        let c = sys.add_subsystem(adder(1));
        let d = sys.add_subsystem(Block::Gain(Gain::from(-2, 0, 4).unwrap()));
        sys.connect(a, 0, c).unwrap();
        sys.connect(b, 0, c).unwrap();
        sys.connect(c, 0, d).unwrap();
        sys
    };
    let mut one = build();
    let mut two = build();
    for stop in [0u64, 1, 5, 12, 12, 40] {
        assert_eq!(one.run_simulation(stop), two.run_simulation(stop));
        assert_eq!(one.time(), two.time());
        for i in 0..4 {
            assert_eq!(one.get_outputs(i), two.get_outputs(i));
        }
    }
}

#[test]
fn linear_source_first_step() {
    for s in [1u64, 2, 7, 1000] {
        let mut sys = Sys::new();
        let a = sys.add_subsystem(linear(1, 2, s));
        assert_eq!(sys.run_bounded(s, 1), Ok(s));
        assert_eq!(sys.get_outputs(a), vec![1 * (s as i64) + 2]);
    }
}

#[test]
fn polynomial_source_first_step() {
    for s in [1u64, 2, 7, 1000] {
        let mut sys = Sys::new();
        let a = sys.add_subsystem(polynomial(vec![2, 1], s));
        assert_eq!(sys.run_bounded(s, 1), Ok(s));
        assert_eq!(sys.get_outputs(a), vec![2 + 1 * (s as i64)]);
    }
}

#[test]
fn polynomial_of_higher_degree() {
    let mut sys = Sys::new();
    let a = sys.add_subsystem(polynomial(vec![1, 2, 3, 4], 1));
    assert_eq!(sys.run_simulation(1), Ok(1));
    assert_eq!(sys.get_outputs(a), vec![10]);
    assert_eq!(sys.run_simulation(2), Ok(2));
    assert_eq!(sys.get_outputs(a), vec![1 + 4 + 12 + 32]);
    assert_eq!(sys.run_simulation(3), Ok(3));
    assert_eq!(sys.get_outputs(a), vec![1 + 6 + 27 + 108]);
}

#[test]
fn polynomial_without_coefficients_is_zero() {
    let mut sys = Sys::new();
    let a = sys.add_subsystem(polynomial(vec![], 1));
    assert_eq!(sys.run_simulation(4), Ok(4));
    assert_eq!(sys.get_outputs(a), vec![0]);
}

#[test]
fn summation_of_two_sources_with_different_steps() {
    let mut sys = Sys::new();
    let a = sys.add_subsystem(linear(1, 0, 2));
    let b = sys.add_subsystem(polynomial(vec![100, 1], 3));
    let c = sys.add_subsystem(adder(1));
    sys.connect(a, 0, c).unwrap();
    sys.connect(b, 0, c).unwrap();
    // t = 1: neither source has stepped, the sum reads the zeros
    assert_eq!(sys.run_simulation(1), Ok(1));
    assert_eq!(sys.get_outputs(c), vec![0]);
    // t = 2: a has stepped, b has not
    assert_eq!(sys.run_simulation(2), Ok(2));
    assert_eq!(sys.get_outputs(a), vec![2]);
    assert_eq!(sys.get_outputs(b), vec![0]);
    assert_eq!(sys.get_outputs(c), vec![2]);
    // t = 3: both have stepped at least once
    assert_eq!(sys.run_simulation(3), Ok(3));
    assert_eq!(sys.get_outputs(a), vec![2]);
    assert_eq!(sys.get_outputs(b), vec![103]);
    assert_eq!(sys.get_outputs(c), vec![105]);
    // t = 5: a is at 4, b still at 3
    assert_eq!(sys.run_simulation(5), Ok(5));
    assert_eq!(sys.get_outputs(a), vec![4]);
    assert_eq!(sys.get_outputs(b), vec![103]);
    assert_eq!(sys.get_outputs(c), vec![107]);
}

#[test]
fn run_on_empty_graph_returns_the_start_time() {
    let mut sys = Sys::new();
    assert_eq!(sys.run_simulation(10), Ok(0));
    assert_eq!(sys.time(), 0);
    assert_eq!(sys.len(), 0);
    assert!(!sys.has_started());
    assert_eq!(sys.run_bounded(10, 0), Ok(0));
}

#[test]
fn end_to_end_ramps_into_summation() {
    let mut sys = Sys::new();
    let a = sys.add_subsystem(linear(1, 0, 1));
    let b = sys.add_subsystem(polynomial(vec![0, 1], 1));
    let c = sys.add_subsystem(adder(1));
    assert_eq!(sys.connect(a, 0, c), Ok(()));
    assert_eq!(sys.connect(b, 0, c), Ok(()));
    assert_eq!(sys.run_simulation(3), Ok(3));
    assert_eq!(sys.time(), 3);
    assert_eq!(sys.get_outputs(a), vec![3]);
    assert_eq!(sys.get_outputs(b), vec![3]);
    assert_eq!(sys.get_outputs(c), vec![6]);
}

#[test]
fn end_to_end_with_default_blocks() {
    let mut sys = Sys::new();
    let a = sys.add_subsystem(Block::Linear(LinearSource::new()));
    let b = sys.add_subsystem(Block::Polynomial(Polynomial::new()));
    let c = sys.add_subsystem(Block::Adder(Adder::new()));
    sys.connect(a, 0, c).unwrap();
    sys.connect(b, 0, c).unwrap();
    assert_eq!(sys.run_simulation(3), Ok(3));
    assert_eq!(sys.get_outputs(c), vec![6]);
}

#[test]
fn tick_at_the_stop_time_is_taken() {
    let mut sys = Sys::new();
    let a = sys.add_subsystem(linear(1, 0, 5));
    assert_eq!(sys.run_simulation(4), Ok(0));
    assert_eq!(sys.get_outputs(a), vec![0]);
    assert!(!sys.has_started());
    assert_eq!(sys.run_simulation(5), Ok(5));
    assert_eq!(sys.get_outputs(a), vec![5]);
    assert_eq!(sys.run_simulation(9), Ok(5));
    assert_eq!(sys.get_outputs(a), vec![5]);
    assert_eq!(sys.run_simulation(10), Ok(10));
    assert_eq!(sys.get_outputs(a), vec![10]);
}

#[test]
fn step_limit_stops_a_block_that_never_advances() {
    let mut sys = Sys::new();
    let a = sys.add_subsystem(linear(1, 4, 0));
    assert_eq!(sys.run_bounded(0, 25), Err(RunError::StepLimit));
    assert_eq!(sys.time(), 0);
    assert_eq!(sys.get_outputs(a), vec![4]);
    assert_eq!(sys.get_subsystem(a).get_next_time(), 0);
}

#[test]
fn step_limit_leaves_the_run_resumable() {
    let mut sys = Sys::new();
    let a = sys.add_subsystem(linear(2, 0, 1));
    assert_eq!(sys.run_bounded(10, 4), Err(RunError::StepLimit));
    assert_eq!(sys.time(), 4);
    assert_eq!(sys.get_outputs(a), vec![8]);
    assert_eq!(sys.run_bounded(10, 6), Ok(10));
    assert_eq!(sys.get_outputs(a), vec![20]);
}

#[test]
fn failed_step_is_reported_with_its_block() {
    let mut sys = Sys::new();
    let a = sys.add_subsystem(linear(1, 0, 1));
    let b = sys.add_subsystem(linear(i64::MAX, 0, 2));
    assert_eq!(
        sys.run_simulation(5),
        Err(RunError::Step { block: b, error: NumericError::Overflow })
    );
    // `a` is stepped at 1 and, ahead of `b`, at 2; then `b` is due and fails
    assert_eq!(sys.time(), 2);
    assert_eq!(sys.get_outputs(a), vec![2]);
    assert_eq!(sys.get_outputs(b), vec![0]);
    assert_eq!(sys.get_subsystem(a).get_next_time(), 3);
    assert_eq!(sys.get_subsystem(b).get_next_time(), 2);
}

#[test]
fn time_that_does_not_fit_the_value_is_a_cast_failure() {
    let mut sys: MainSystem<u64, i8, Block<u64, i8>> = MainSystem::new();
    let a = sys.add_subsystem(Block::Linear(LinearSource::from(0, 1, 0, 100).unwrap()));
    assert_eq!(sys.run_simulation(100), Ok(100));
    assert_eq!(sys.get_outputs(a), vec![1]);
    assert_eq!(
        sys.run_simulation(200),
        Err(RunError::Step { block: a, error: NumericError::CastFailure })
    );
    assert_eq!(sys.time(), 100);
    assert_eq!(sys.get_outputs(a), vec![1]);
}

#[test]
fn step_beyond_the_time_range_is_an_overflow() {
    let mut sys = Sys::new();
    let start = u64::MAX - 5;
    let a = sys.add_subsystem(Block::Linear(LinearSource::from(0, 7, start, 3).unwrap()));
    assert_eq!(
        sys.run_simulation(u64::MAX),
        Err(RunError::Step { block: a, error: NumericError::Overflow })
    );
    assert_eq!(sys.get_outputs(a), vec![0]);
    let r: Result<LinearSource<u64, i64>, NumericError> = LinearSource::from(1, 2, u64::MAX, 1);
    assert!(matches!(r, Err(NumericError::Overflow)));
}

#[test]
fn summation_overflow_is_reported() {
    let mut sys = Sys::new();
    let a = sys.add_subsystem(linear(0, i64::MAX, 1));
    let b = sys.add_subsystem(linear(0, 1, 1));
    let c = sys.add_subsystem(adder(1));
    sys.connect(a, 0, c).unwrap();
    sys.connect(b, 0, c).unwrap();
    assert_eq!(
        sys.run_simulation(1),
        Err(RunError::Step { block: c, error: NumericError::Overflow })
    );
    assert_eq!(sys.get_outputs(a), vec![i64::MAX]);
    assert_eq!(sys.get_outputs(b), vec![1]);
    assert_eq!(sys.get_outputs(c), vec![0]);
}

#[test]
fn feedback_reads_the_previous_output() {
    let mut sys = Sys::new();
    let one = sys.add_subsystem(linear(0, 1, 1));
    let acc = sys.add_subsystem(adder(1));
    sys.connect(one, 0, acc).unwrap();
    sys.connect(acc, 0, acc).unwrap();
    assert_eq!(sys.run_simulation(4), Ok(4));
    assert_eq!(sys.get_outputs(acc), vec![4]);
}

#[test]
fn gain_negator_multiplier_inverter() {
    let mut sys = Sys::new();
    let a = sys.add_subsystem(linear(1, 0, 1));
    let b = sys.add_subsystem(linear(0, -1, 1));
    let gain = sys.add_subsystem(Block::Gain(Gain::from(5, 0, 1).unwrap()));
    let neg = sys.add_subsystem(Block::Negator(Negator::from(0, 1).unwrap()));
    let mul = sys.add_subsystem(Block::Multiplier(Multiplier::from(0, 0, 1).unwrap()));
    let inv_a = sys.add_subsystem(Block::Inverter(Inverter::from(0, 1).unwrap()));
    let inv_b = sys.add_subsystem(Block::Inverter(Inverter::from(0, 1).unwrap()));
    sys.connect(a, 0, gain).unwrap();
    sys.connect(a, 0, neg).unwrap();
    sys.connect(a, 0, mul).unwrap();
    sys.connect(b, 0, mul).unwrap();
    sys.connect(a, 0, mul).unwrap();
    sys.connect(a, 0, inv_a).unwrap();
    sys.connect(b, 0, inv_b).unwrap();
    assert_eq!(sys.run_simulation(1), Ok(1));
    assert_eq!(sys.get_outputs(gain), vec![5]);
    assert_eq!(sys.get_outputs(neg), vec![-1]);
    assert_eq!(sys.get_outputs(mul), vec![-1]);
    assert_eq!(sys.get_outputs(inv_a), vec![1]);
    assert_eq!(sys.get_outputs(inv_b), vec![-1]);
    assert_eq!(sys.run_simulation(3), Ok(3));
    assert_eq!(sys.get_outputs(gain), vec![15]);
    assert_eq!(sys.get_outputs(neg), vec![-3]);
    assert_eq!(sys.get_outputs(mul), vec![-9]);
    assert_eq!(sys.get_outputs(inv_a), vec![0]);
    assert_eq!(sys.get_outputs(inv_b), vec![-1]);
}

#[test]
fn unwired_operators_give_zero() {
    let mut sys = Sys::new();
    let gain = sys.add_subsystem(Block::Gain(Gain::new()));
    let neg = sys.add_subsystem(Block::Negator(Negator::new()));
    let mul = sys.add_subsystem(Block::Multiplier(Multiplier::new(2)));
    let inv = sys.add_subsystem(Block::Inverter(Inverter::new()));
    let sum = sys.add_subsystem(Block::Adder(Adder::new()));
    assert_eq!(sys.run_simulation(2), Ok(2));
    for i in [gain, neg, mul, inv, sum] {
        assert_eq!(sys.get_outputs(i), vec![0]);
    }
}

#[test]
fn multiplier_without_ports_gives_one() {
    let mut sys = Sys::new();
    let mul = sys.add_subsystem(Block::Multiplier(Multiplier::new(0)));
    assert_eq!(sys.get_outputs(mul), vec![0]);
    assert_eq!(sys.run_simulation(2), Ok(2));
    assert_eq!(sys.get_outputs(mul), vec![1]);
}

#[test]
fn multiplier_with_an_unwired_port_gives_zero() {
    let mut sys = Sys::new();
    let three = sys.add_subsystem(linear(0, 3, 1));
    let mul = sys.add_subsystem(Block::Multiplier(Multiplier::new(1)));
    // the connection adds a wired port; the port the block was made with stays unwired
    sys.connect(three, 0, mul).unwrap();
    assert_eq!(sys.run_simulation(2), Ok(2));
    assert_eq!(sys.get_outputs(three), vec![3]);
    assert_eq!(sys.get_outputs(mul), vec![0]);
}

#[test]
fn partly_wired_multiplier_steps_to_zero() {
    let mut stream: Vec<i64> = vec![3, 0];
    let mut mul: Multiplier<u64, i64> = Multiplier::new(2);
    mul.set_outputs(1);
    Sink::set_input(&mut mul, 0, 0);
    assert_eq!(mul.next_step(&mut stream), Ok(()));
    assert_eq!(stream, vec![3, 0]);
    assert_eq!(*Source::get_output_ref(&mul, 0), 0);
    assert_eq!(mul.get_output_history(), &vec![(0, 0), (1, 0)]);
    assert_eq!(mul.get_next_time(), 2);
}

#[test]
fn partly_wired_multiplier_does_not_overflow() {
    let mut stream: Vec<i64> = vec![i64::MAX, 0];
    let mut mul: Multiplier<u64, i64> = Multiplier::new(3);
    mul.set_outputs(1);
    Sink::set_input(&mut mul, 0, 0);
    Sink::set_input(&mut mul, 0, 1);
    assert_eq!(mul.next_step(&mut stream), Ok(()));
    assert_eq!(stream[1], 0);
    Sink::set_input(&mut mul, 0, 2);
    assert_eq!(mul.next_step(&mut stream), Err(NumericError::Overflow));
    assert_eq!(stream[1], 0);
    assert_eq!(mul.get_next_time(), 2);
}

#[test]
fn inverter_of_zero_is_division_by_zero() {
    let mut sys = Sys::new();
    let zero = sys.add_subsystem(linear(0, 0, 1));
    let inv = sys.add_subsystem(Block::Inverter(Inverter::from(0, 1).unwrap()));
    sys.connect(zero, 0, inv).unwrap();
    assert_eq!(
        sys.run_simulation(1),
        Err(RunError::Step { block: inv, error: NumericError::DivisionByZero })
    );
    assert_eq!(sys.time(), 1);
    assert_eq!(sys.get_outputs(inv), vec![0]);
}

#[test]
fn negator_overflow_is_reported() {
    let mut sys = Sys::new();
    let min = sys.add_subsystem(linear(0, i64::MIN, 1));
    let neg = sys.add_subsystem(Block::Negator(Negator::from(0, 1).unwrap()));
    sys.connect(min, 0, neg).unwrap();
    assert_eq!(
        sys.run_simulation(1),
        Err(RunError::Step { block: neg, error: NumericError::Overflow })
    );
}

#[test]
fn single_input_blocks_read_the_input_wired_last() {
    let mut sys = Sys::new();
    let a = sys.add_subsystem(linear(0, 3, 1));
    let b = sys.add_subsystem(linear(0, 4, 1));
    let gain = sys.add_subsystem(Block::Gain(Gain::from(10, 0, 1).unwrap()));
    sys.connect(a, 0, gain).unwrap();
    sys.connect(b, 0, gain).unwrap();
    assert_eq!(sys.run_simulation(1), Ok(1));
    assert_eq!(sys.get_outputs(gain), vec![40]);
}

#[test]
fn history_records_every_step() {
    let mut sys: MainSystem<u64, i64, LinearSource<u64, i64>> = MainSystem::new();
    let a = sys.add_subsystem(LinearSource::from(2, 1, 0, 3).unwrap());
    assert_eq!(sys.get_subsystem(a).get_output_history(), &vec![(0, 1)]);
    assert_eq!(sys.run_simulation(9), Ok(9));
    assert_eq!(
        sys.get_subsystem(a).get_output_history(),
        &vec![(0, 1), (3, 7), (6, 13), (9, 19)]
    );
    assert_eq!(*sys.get_subsystem(a).get_output_ref(0), 19);
}

#[test]
fn polynomial_history_starts_with_the_constant() {
    let p: Polynomial<u64, i64> = Polynomial::from(vec![4, 1], 2, 1).unwrap();
    assert_eq!(p.get_output_history(), &vec![(2, 4)]);
    assert_eq!(*p.get_output_ref(0), 4);
    assert_eq!(p.get_next_time(), 3);
    assert_eq!(p.get_dim(), 1);
}

#[test]
fn a_block_steps_on_its_own() {
    let mut stream: Vec<i64> = vec![0, 0, 0];
    let mut p: Polynomial<u64, i64> = Polynomial::from(vec![1, 1, 1], 0, 2).unwrap();
    p.set_outputs(1);
    assert_eq!(p.get_output_start(), 1);
    assert_eq!(p.next_step(&mut stream), Ok(()));
    assert_eq!(stream, vec![0, 7, 0]);
    assert_eq!(p.get_next_time(), 4);
    let mut sum: Adder<u64, i64> = Adder::new();
    sum.set_outputs(2);
    sum.add_input(1);
    sum.add_input(1);
    assert_eq!(sum.next_step(&mut stream), Ok(()));
    assert_eq!(stream, vec![0, 7, 14]);
    assert_eq!(sum.get_output_history(), &vec![(0, 0), (1, 14)]);
}

#[test]
fn gain_accessors() {
    let mut stream: Vec<i64> = vec![6, 0];
    let mut gain: Gain<u64, i64> = Gain::from(7, 0, 1).unwrap();
    gain.set_outputs(1);
    assert_eq!(gain.get_output(), 0);
    gain.set_input(0);
    assert_eq!(gain.next_step(&mut stream), Ok(()));
    assert_eq!(gain.get_output(), 42);
    assert_eq!(*gain.get_output_ref(), 42);
    assert_eq!(stream, vec![6, 42]);
    assert_eq!(gain.get_output_history(), &vec![(0, 0), (1, 42)]);
}

#[test]
fn multiplier_ports_can_be_rewired() {
    let mut stream: Vec<i64> = vec![2, 3, 5, 0];
    let mut mul: Multiplier<u64, i64> = Multiplier::new(2);
    mul.set_outputs(3);
    Sink::set_input(&mut mul, 0, 0);
    assert_eq!(mul.next_step(&mut stream), Ok(()));
    assert_eq!(stream[3], 0);
    Sink::set_input(&mut mul, 1, 1);
    assert_eq!(mul.next_step(&mut stream), Ok(()));
    assert_eq!(stream[3], 6);
    Sink::set_input(&mut mul, 2, 0);
    assert_eq!(mul.next_step(&mut stream), Ok(()));
    assert_eq!(stream[3], 15);
    mul.add_input(0);
    assert_eq!(mul.next_step(&mut stream), Ok(()));
    assert_eq!(stream[3], 30);
    Sink::set_input(&mut mul, 1, 2);
    assert_eq!(mul.next_step(&mut stream), Ok(()));
    assert_eq!(stream[3], 45);
    assert_eq!(*Source::get_output_ref(&mul, 0), 45);
    assert_eq!(
        mul.get_output_history(),
        &vec![(0, 0), (1, 0), (2, 6), (3, 15), (4, 30), (5, 45)]
    );
}

#[test]
fn inverter_port_is_replaced() {
    let mut stream: Vec<i64> = vec![1, -1, 0];
    let mut inv: Inverter<u64, i64> = Inverter::new();
    inv.set_outputs(2);
    inv.set_input(0, 0);
    assert_eq!(inv.next_step(&mut stream), Ok(()));
    assert_eq!(stream[2], 1);
    inv.set_input(1, 0);
    assert_eq!(inv.next_step(&mut stream), Ok(()));
    assert_eq!(stream[2], -1);
}

#[test]
fn thirty_two_bit_time() {
    let mut sys: MainSystem<u32, i32, Block<u32, i32>> = MainSystem::new();
    let a = sys.add_subsystem(Block::Polynomial(Polynomial::from(vec![0, 0, 1], 0, 10).unwrap()));
    assert_eq!(sys.run_simulation(30), Ok(30));
    assert_eq!(sys.get_outputs(a), vec![900]);
}
