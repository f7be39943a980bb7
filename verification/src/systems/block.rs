use vstd::prelude::*;
use crate::base::{SimSystem, Source};
use crate::errors::NumericError;
use crate::numeric::{Time, Value};
use crate::systems::operators::{
    Adder, AdderModel, Gain, GainModel, Inverter, InverterModel, Multiplier, MultiplierModel,
    Negator, NegatorModel,
};
use crate::systems::sources::{LinearModel, LinearSource, Polynomial, PolynomialModel};

verus! {

/// Any block of this library, so that one diagram can hold blocks of
/// different kinds.
pub enum Block<T, V> {
    Linear(LinearSource<T, V>),
    Polynomial(Polynomial<T, V>),
    Adder(Adder<T, V>),
    Negator(Negator<T, V>),
    Multiplier(Multiplier<T, V>),
    Inverter(Inverter<T, V>),
    Gain(Gain<T, V>),
}

/// Any block of this library as a mathematical value.
pub enum BlockModel<T, V> {
    Linear(LinearModel<T, V>),
    Polynomial(PolynomialModel<T, V>),
    Adder(AdderModel<T, V>),
    Negator(NegatorModel<T, V>),
    Multiplier(MultiplierModel<T, V>),
    Inverter(InverterModel<T, V>),
    Gain(GainModel<T, V>),
}

impl<T: Time, V: Value> SimSystem<T, V> for Block<T, V> {
    type Model = BlockModel<T, V>;

    open spec fn model(&self) -> BlockModel<T, V> {
        match self {
            Block::Linear(b) => BlockModel::Linear(b.model()),
            Block::Polynomial(b) => BlockModel::Polynomial(b.model()),
            Block::Adder(b) => BlockModel::Adder(b.model()),
            Block::Negator(b) => BlockModel::Negator(b.model()),
            Block::Multiplier(b) => BlockModel::Multiplier(b.model()),
            Block::Inverter(b) => BlockModel::Inverter(b.model()),
            Block::Gain(b) => BlockModel::Gain(b.model()),
        }
    }

    open spec fn valid(m: BlockModel<T, V>) -> bool {
        match m {
            BlockModel::Linear(x) => LinearSource::<T, V>::valid(x),
            BlockModel::Polynomial(x) => Polynomial::<T, V>::valid(x),
            BlockModel::Adder(x) => Adder::<T, V>::valid(x),
            BlockModel::Negator(x) => Negator::<T, V>::valid(x),
            BlockModel::Multiplier(x) => Multiplier::<T, V>::valid(x),
            BlockModel::Inverter(x) => Inverter::<T, V>::valid(x),
            BlockModel::Gain(x) => Gain::<T, V>::valid(x),
        }
    }

    open spec fn next_time_of(m: BlockModel<T, V>) -> T {
        match m {
            BlockModel::Linear(x) => LinearSource::<T, V>::next_time_of(x),
            BlockModel::Polynomial(x) => Polynomial::<T, V>::next_time_of(x),
            BlockModel::Adder(x) => Adder::<T, V>::next_time_of(x),
            BlockModel::Negator(x) => Negator::<T, V>::next_time_of(x),
            BlockModel::Multiplier(x) => Multiplier::<T, V>::next_time_of(x),
            BlockModel::Inverter(x) => Inverter::<T, V>::next_time_of(x),
            BlockModel::Gain(x) => Gain::<T, V>::next_time_of(x),
        }
    }

    open spec fn dim_of(m: BlockModel<T, V>) -> nat {
        match m {
            BlockModel::Linear(x) => LinearSource::<T, V>::dim_of(x),
            BlockModel::Polynomial(x) => Polynomial::<T, V>::dim_of(x),
            BlockModel::Adder(x) => Adder::<T, V>::dim_of(x),
            BlockModel::Negator(x) => Negator::<T, V>::dim_of(x),
            BlockModel::Multiplier(x) => Multiplier::<T, V>::dim_of(x),
            BlockModel::Inverter(x) => Inverter::<T, V>::dim_of(x),
            BlockModel::Gain(x) => Gain::<T, V>::dim_of(x),
        }
    }

    open spec fn output_start_of(m: BlockModel<T, V>) -> nat {
        match m {
            BlockModel::Linear(x) => LinearSource::<T, V>::output_start_of(x),
            BlockModel::Polynomial(x) => Polynomial::<T, V>::output_start_of(x),
            BlockModel::Adder(x) => Adder::<T, V>::output_start_of(x),
            BlockModel::Negator(x) => Negator::<T, V>::output_start_of(x),
            BlockModel::Multiplier(x) => Multiplier::<T, V>::output_start_of(x),
            BlockModel::Inverter(x) => Inverter::<T, V>::output_start_of(x),
            BlockModel::Gain(x) => Gain::<T, V>::output_start_of(x),
        }
    }

    open spec fn inputs_of(m: BlockModel<T, V>) -> Seq<usize> {
        match m {
            BlockModel::Linear(x) => LinearSource::<T, V>::inputs_of(x),
            BlockModel::Polynomial(x) => Polynomial::<T, V>::inputs_of(x),
            BlockModel::Adder(x) => Adder::<T, V>::inputs_of(x),
            BlockModel::Negator(x) => Negator::<T, V>::inputs_of(x),
            BlockModel::Multiplier(x) => Multiplier::<T, V>::inputs_of(x),
            BlockModel::Inverter(x) => Inverter::<T, V>::inputs_of(x),
            BlockModel::Gain(x) => Gain::<T, V>::inputs_of(x),
        }
    }

    open spec fn step_of(m: BlockModel<T, V>, stream: Seq<V>) -> Result<
        (BlockModel<T, V>, Seq<V>),
        NumericError,
    > {
        match m {
            BlockModel::Linear(x) => match LinearSource::<T, V>::step_of(x, stream) {
                Ok((n, out)) => Ok((BlockModel::Linear(n), out)),
                Err(e) => Err(e),
            },
            BlockModel::Polynomial(x) => match Polynomial::<T, V>::step_of(x, stream) {
                Ok((n, out)) => Ok((BlockModel::Polynomial(n), out)),
                Err(e) => Err(e),
            },
            BlockModel::Adder(x) => match Adder::<T, V>::step_of(x, stream) {
                Ok((n, out)) => Ok((BlockModel::Adder(n), out)),
                Err(e) => Err(e),
            },
            BlockModel::Negator(x) => match Negator::<T, V>::step_of(x, stream) {
                Ok((n, out)) => Ok((BlockModel::Negator(n), out)),
                Err(e) => Err(e),
            },
            BlockModel::Multiplier(x) => match Multiplier::<T, V>::step_of(x, stream) {
                Ok((n, out)) => Ok((BlockModel::Multiplier(n), out)),
                Err(e) => Err(e),
            },
            BlockModel::Inverter(x) => match Inverter::<T, V>::step_of(x, stream) {
                Ok((n, out)) => Ok((BlockModel::Inverter(n), out)),
                Err(e) => Err(e),
            },
            BlockModel::Gain(x) => match Gain::<T, V>::step_of(x, stream) {
                Ok((n, out)) => Ok((BlockModel::Gain(n), out)),
                Err(e) => Err(e),
            },
        }
    }

    open spec fn with_output_start(m: BlockModel<T, V>, start: usize) -> BlockModel<T, V> {
        match m {
            BlockModel::Linear(x) => BlockModel::Linear(
                LinearSource::<T, V>::with_output_start(x, start),
            ),
            BlockModel::Polynomial(x) => BlockModel::Polynomial(
                Polynomial::<T, V>::with_output_start(x, start),
            ),
            BlockModel::Adder(x) => BlockModel::Adder(
                Adder::<T, V>::with_output_start(x, start),
            ),
            BlockModel::Negator(x) => BlockModel::Negator(
                Negator::<T, V>::with_output_start(x, start),
            ),
            BlockModel::Multiplier(x) => BlockModel::Multiplier(
                Multiplier::<T, V>::with_output_start(x, start),
            ),
            BlockModel::Inverter(x) => BlockModel::Inverter(
                Inverter::<T, V>::with_output_start(x, start),
            ),
            BlockModel::Gain(x) => BlockModel::Gain(
                Gain::<T, V>::with_output_start(x, start),
            ),
        }
    }

    open spec fn with_input(m: BlockModel<T, V>, input: usize) -> BlockModel<T, V> {
        match m {
            BlockModel::Linear(x) => BlockModel::Linear(LinearSource::<T, V>::with_input(x, input)),
            BlockModel::Polynomial(x) => BlockModel::Polynomial(
                Polynomial::<T, V>::with_input(x, input),
            ),
            BlockModel::Adder(x) => BlockModel::Adder(Adder::<T, V>::with_input(x, input)),
            BlockModel::Negator(x) => BlockModel::Negator(Negator::<T, V>::with_input(x, input)),
            BlockModel::Multiplier(x) => BlockModel::Multiplier(
                Multiplier::<T, V>::with_input(x, input),
            ),
            BlockModel::Inverter(x) => BlockModel::Inverter(Inverter::<T, V>::with_input(x, input)),
            BlockModel::Gain(x) => BlockModel::Gain(Gain::<T, V>::with_input(x, input)),
        }
    }

    proof fn step_law(m: BlockModel<T, V>, stream: Seq<V>) {
        match m {
            BlockModel::Linear(x) => LinearSource::<T, V>::step_law(x, stream),
            BlockModel::Polynomial(x) => Polynomial::<T, V>::step_law(x, stream),
            BlockModel::Adder(x) => Adder::<T, V>::step_law(x, stream),
            BlockModel::Negator(x) => Negator::<T, V>::step_law(x, stream),
            BlockModel::Multiplier(x) => Multiplier::<T, V>::step_law(x, stream),
            BlockModel::Inverter(x) => Inverter::<T, V>::step_law(x, stream),
            BlockModel::Gain(x) => Gain::<T, V>::step_law(x, stream),
        }
    }

    proof fn placement_law(m: BlockModel<T, V>, start: usize) {
        match m {
            BlockModel::Linear(x) => LinearSource::<T, V>::placement_law(x, start),
            BlockModel::Polynomial(x) => Polynomial::<T, V>::placement_law(x, start),
            BlockModel::Adder(x) => Adder::<T, V>::placement_law(x, start),
            BlockModel::Negator(x) => Negator::<T, V>::placement_law(x, start),
            BlockModel::Multiplier(x) => Multiplier::<T, V>::placement_law(x, start),
            BlockModel::Inverter(x) => Inverter::<T, V>::placement_law(x, start),
            BlockModel::Gain(x) => Gain::<T, V>::placement_law(x, start),
        }
    }

    proof fn wiring_law(m: BlockModel<T, V>, input: usize) {
        match m {
            BlockModel::Linear(x) => LinearSource::<T, V>::wiring_law(x, input),
            BlockModel::Polynomial(x) => Polynomial::<T, V>::wiring_law(x, input),
            BlockModel::Adder(x) => Adder::<T, V>::wiring_law(x, input),
            BlockModel::Negator(x) => Negator::<T, V>::wiring_law(x, input),
            BlockModel::Multiplier(x) => Multiplier::<T, V>::wiring_law(x, input),
            BlockModel::Inverter(x) => Inverter::<T, V>::wiring_law(x, input),
            BlockModel::Gain(x) => Gain::<T, V>::wiring_law(x, input),
        }
    }

    fn next_step(&mut self, stream: &mut Vec<V>) -> (r: Result<(), NumericError>) {
        match self {
            Block::Linear(b) => b.next_step(stream),
            Block::Polynomial(b) => b.next_step(stream),
            Block::Adder(b) => b.next_step(stream),
            Block::Negator(b) => b.next_step(stream),
            Block::Multiplier(b) => b.next_step(stream),
            Block::Inverter(b) => b.next_step(stream),
            Block::Gain(b) => b.next_step(stream),
        }
    }

    fn get_next_time(&self) -> (t: T) {
        match self {
            Block::Linear(b) => b.get_next_time(),
            Block::Polynomial(b) => b.get_next_time(),
            Block::Adder(b) => b.get_next_time(),
            Block::Negator(b) => b.get_next_time(),
            Block::Multiplier(b) => b.get_next_time(),
            Block::Inverter(b) => b.get_next_time(),
            Block::Gain(b) => b.get_next_time(),
        }
    }

    fn get_dim(&self) -> (d: usize) {
        match self {
            Block::Linear(b) => b.get_dim(),
            Block::Polynomial(b) => b.get_dim(),
            Block::Adder(b) => b.get_dim(),
            Block::Negator(b) => b.get_dim(),
            Block::Multiplier(b) => b.get_dim(),
            Block::Inverter(b) => b.get_dim(),
            Block::Gain(b) => b.get_dim(),
        }
    }

    fn get_output_start(&self) -> (s: usize) {
        match self {
            Block::Linear(b) => b.get_output_start(),
            Block::Polynomial(b) => b.get_output_start(),
            Block::Adder(b) => b.get_output_start(),
            Block::Negator(b) => b.get_output_start(),
            Block::Multiplier(b) => b.get_output_start(),
            Block::Inverter(b) => b.get_output_start(),
            Block::Gain(b) => b.get_output_start(),
        }
    }

    fn add_input(&mut self, input: usize) {
        match self {
            Block::Linear(b) => b.add_input(input),
            Block::Polynomial(b) => b.add_input(input),
            Block::Adder(b) => b.add_input(input),
            Block::Negator(b) => b.add_input(input),
            Block::Multiplier(b) => b.add_input(input),
            Block::Inverter(b) => b.add_input(input),
            Block::Gain(b) => b.add_input(input),
        }
    }

    fn set_outputs(&mut self, output_start: usize) {
        match self {
            Block::Linear(b) => b.set_outputs(output_start),
            Block::Polynomial(b) => b.set_outputs(output_start),
            Block::Adder(b) => b.set_outputs(output_start),
            Block::Negator(b) => b.set_outputs(output_start),
            Block::Multiplier(b) => b.set_outputs(output_start),
            Block::Inverter(b) => b.set_outputs(output_start),
            Block::Gain(b) => b.set_outputs(output_start),
        }
    }
}

impl<T: Time, V: Value> Source<T, V> for Block<T, V> {
    open spec fn latest_output(m: BlockModel<T, V>, port: int) -> V {
        match m {
            BlockModel::Linear(x) => LinearSource::<T, V>::latest_output(x, port),
            BlockModel::Polynomial(x) => Polynomial::<T, V>::latest_output(x, port),
            BlockModel::Adder(x) => Adder::<T, V>::latest_output(x, port),
            BlockModel::Negator(x) => Negator::<T, V>::latest_output(x, port),
            BlockModel::Multiplier(x) => Multiplier::<T, V>::latest_output(x, port),
            BlockModel::Inverter(x) => Inverter::<T, V>::latest_output(x, port),
            BlockModel::Gain(x) => Gain::<T, V>::latest_output(x, port),
        }
    }

    proof fn source_law(m: BlockModel<T, V>, stream: Seq<V>) {
        match m {
            BlockModel::Linear(x) => LinearSource::<T, V>::source_law(x, stream),
            BlockModel::Polynomial(x) => Polynomial::<T, V>::source_law(x, stream),
            BlockModel::Adder(x) => Adder::<T, V>::source_law(x, stream),
            BlockModel::Negator(x) => Negator::<T, V>::source_law(x, stream),
            BlockModel::Multiplier(x) => Multiplier::<T, V>::source_law(x, stream),
            BlockModel::Inverter(x) => Inverter::<T, V>::source_law(x, stream),
            BlockModel::Gain(x) => Gain::<T, V>::source_law(x, stream),
        }
    }

    fn get_output_ref(&self, port: usize) -> (y: &V) {
        match self {
            Block::Linear(b) => Source::get_output_ref(b, port),
            Block::Polynomial(b) => Source::get_output_ref(b, port),
            Block::Adder(b) => Source::get_output_ref(b, port),
            Block::Negator(b) => Source::get_output_ref(b, port),
            Block::Multiplier(b) => Source::get_output_ref(b, port),
            Block::Inverter(b) => Source::get_output_ref(b, port),
            Block::Gain(b) => Source::get_output_ref(b, port),
        }
    }
}

} // verus!
