use vstd::prelude::*;
use crate::errors::NumericError;
use crate::numeric::{value_of, value_of_as_int, value_of_represents, Time, Value};

pub mod block;
pub mod operators;
pub mod sources;

verus! {

/// What the blocks of this library have in common, as a mathematical value:
/// the wired inputs, the latest output, the block's clock, the start of its
/// output region and the outputs so far, each with its time.
pub struct CoreModel<T, V> {
    pub inputs: Seq<usize>,
    pub output: V,
    pub time: T,
    pub step_size: T,
    pub output_start: usize,
    pub history: Seq<(T, V)>,
}

impl<T: Time, V: Value> CoreModel<T, V> {
    /// A block that has not stepped: clock at `start_time`, one entry in the
    /// history for the initial output, nothing wired, region at zero.
    pub open spec fn initial(start_time: T, step_size: T, output: V) -> Self {
        CoreModel {
            inputs: Seq::empty(),
            output,
            time: start_time,
            step_size,
            output_start: 0,
            history: seq![(start_time, output)],
        }
    }

    /// The time of the next step can be represented.
    pub open spec fn valid(self) -> bool {
        T::representable(self.time.as_int() + self.step_size.as_int())
    }

    /// The time of the next step: the clock plus the step size.
    pub open spec fn next_time(self) -> T {
        value_of::<T>(self.time.as_int() + self.step_size.as_int())
    }

    /// The clock after the next step, provided that the step after that can
    /// still be placed in time.
    pub open spec fn advanced(self) -> Result<T, NumericError> {
        if T::representable(self.time.as_int() + 2 * self.step_size.as_int()) {
            Ok(self.next_time())
        } else {
            Err(NumericError::Overflow)
        }
    }

    /// The block after a step to time `t` that produced `y`.
    pub open spec fn committed(self, t: T, y: V) -> Self {
        CoreModel { output: y, time: t, history: self.history.push((t, y)), ..self }
    }

    /// The block with `input` as one more offset to read.
    pub open spec fn with_input(self, input: usize) -> Self {
        CoreModel { inputs: self.inputs.push(input), ..self }
    }

    /// The block with its output slot at `start`.
    pub open spec fn with_output_start(self, start: usize) -> Self {
        CoreModel { output_start: start, ..self }
    }

    /// Stepping keeps the block valid and does not move its next time back.
    pub proof fn advance_law(self, y: V)
        requires
            self.valid(),
        ensures
            self.advanced() matches Ok(t) ==> {
                &&& t.as_int() == self.time.as_int() + self.step_size.as_int()
                &&& self.committed(t, y).valid()
                &&& self.next_time().as_int() <= self.committed(t, y).next_time().as_int()
            },
    {
        T::time_laws(self.step_size);
        value_of_represents::<T>(self.time.as_int() + self.step_size.as_int());
        if let Ok(t) = self.advanced() {
            value_of_represents::<T>(self.time.as_int() + 2 * self.step_size.as_int());
        }
    }
}

/// The state every block of this library keeps.
pub struct BlockCore<T, V> {
    inputs: Vec<usize>,
    output: V,
    time: T,
    step_size: T,
    output_start: usize,
    output_history: Vec<(T, V)>,
}

impl<T: Time, V: Value> BlockCore<T, V> {
    /// The state as a mathematical value.
    pub closed spec fn model(&self) -> CoreModel<T, V> {
        CoreModel {
            inputs: self.inputs@,
            output: self.output,
            time: self.time,
            step_size: self.step_size,
            output_start: self.output_start,
            history: self.output_history@,
        }
    }

    /// A core for a block that starts at `start_time` with `output` as its
    /// initial output. Refused where the first step would lie beyond the
    /// range of the time base.
    pub fn new(start_time: T, step_size: T, output: V) -> (r: Result<Self, NumericError>)
        ensures
            match r {
                Ok(c) => c.model() == CoreModel::initial(start_time, step_size, output)
                    && c.model().valid(),
                Err(e) => e == NumericError::Overflow && !CoreModel::initial(
                    start_time,
                    step_size,
                    output,
                ).valid(),
            },
    {
        if start_time.add_checked(step_size).is_none() {
            return Err(NumericError::Overflow);
        }
        let mut output_history: Vec<(T, V)> = Vec::new();
        output_history.push((start_time, output));
        let c = BlockCore {
            inputs: Vec::new(),
            output,
            time: start_time,
            step_size,
            output_start: 0,
            output_history,
        };
        proof {
            let m = CoreModel::initial(start_time, step_size, output);
            assert(c.model().inputs =~= m.inputs);
            assert(c.model().history =~= m.history);
        }
        Ok(c)
    }

    /// A core for a block that starts at time zero, steps by the default
    /// step of its time base and has `output` as its initial output.
    pub fn with_default_step(output: V) -> (c: Self)
        ensures
            c.model() == CoreModel::initial(
                value_of::<T>(0),
                value_of::<T>(T::default_step()),
                output,
            ),
            c.model().valid(),
    {
        let start_time = T::zero();
        let step_size = T::default_step_size();
        let mut output_history: Vec<(T, V)> = Vec::new();
        output_history.push((start_time, output));
        let c = BlockCore {
            inputs: Vec::new(),
            output,
            time: start_time,
            step_size,
            output_start: 0,
            output_history,
        };
        proof {
            value_of_as_int(start_time);
            value_of_as_int(step_size);
            T::value_laws(step_size, step_size);
            let m = CoreModel::initial(start_time, step_size, output);
            assert(c.model().inputs =~= m.inputs);
            assert(c.model().history =~= m.history);
        }
        c
    }

    /// The time at which the next step is due.
    pub fn next_time(&self) -> (t: T)
        requires
            self.model().valid(),
        ensures
            t == self.model().next_time(),
    {
        match self.time.add_checked(self.step_size) {
            Some(t) => {
                proof {
                    value_of_as_int(t);
                }
                t
            },
            None => self.time,
        }
    }

    /// The clock after the next step; see `CoreModel::advanced`.
    pub fn advance(&self) -> (r: Result<T, NumericError>)
        requires
            self.model().valid(),
        ensures
            r == self.model().advanced(),
    {
        let t = self.next_time();
        proof {
            value_of_represents::<T>(self.time.as_int() + self.step_size.as_int());
        }
        match t.add_checked(self.step_size) {
            Some(_) => Ok(t),
            None => Err(NumericError::Overflow),
        }
    }

    /// Records a step to time `t` with output `y`, and writes `y` on the
    /// block's output slot.
    pub fn commit(&mut self, t: T, y: V, stream: &mut Vec<V>)
        requires
            old(self).model().output_start < old(stream).len(),
        ensures
            final(self).model() == old(self).model().committed(t, y),
            final(stream)@ == old(stream)@.update(old(self).model().output_start as int, y),
    {
        stream.set(self.output_start, y);
        self.output = y;
        self.time = t;
        self.output_history.push((t, y));
    }

    /// Records `input` as one more offset to read.
    pub fn add_input(&mut self, input: usize)
        ensures
            final(self).model() == old(self).model().with_input(input),
    {
        self.inputs.push(input);
    }

    /// Moves the output slot to `output_start`.
    pub fn set_outputs(&mut self, output_start: usize)
        ensures
            final(self).model() == old(self).model().with_output_start(output_start),
    {
        self.output_start = output_start;
    }

    /// The offset of the output slot.
    pub fn output_start(&self) -> (s: usize)
        ensures
            s == self.model().output_start,
    {
        self.output_start
    }

    /// The latest output.
    pub fn output(&self) -> (y: &V)
        ensures
            *y == self.model().output,
    {
        &self.output
    }

    /// The offsets the block reads, in the order they were wired.
    pub fn inputs(&self) -> (v: &Vec<usize>)
        ensures
            v@ == self.model().inputs,
    {
        &self.inputs
    }

    /// The outputs so far, each with its time, the initial output first.
    pub fn output_history(&self) -> (h: &Vec<(T, V)>)
        ensures
            h@ == self.model().history,
    {
        &self.output_history
    }
}

} // verus!
