use vstd::prelude::*;
use crate::base::{all_below, write_region, SimSystem, Sink, Source};
use crate::errors::NumericError;
use crate::numeric::{trunc_div, value_of, value_of_as_int, value_of_represents, Time, Value};
use crate::systems::{BlockCore, CoreModel};

verus! {

/// The sum of the stream values at the first `n` inputs.
pub open spec fn input_sum<V: Value>(stream: Seq<V>, inputs: Seq<usize>, n: nat) -> int
    decreases n,
{
    if n == 0 {
        0
    } else {
        input_sum(stream, inputs, (n - 1) as nat) + stream[inputs[n - 1] as int].as_int()
    }
}

/// Whether every partial sum over the first `n` inputs can be represented.
pub open spec fn input_sum_fits<V: Value>(stream: Seq<V>, inputs: Seq<usize>, n: nat) -> bool
    decreases n,
{
    n == 0 || {
        &&& input_sum_fits(stream, inputs, (n - 1) as nat)
        &&& V::representable(input_sum(stream, inputs, n))
    }
}

/// Partial sums that fit up to `n` fit up to any `k` below.
pub proof fn input_sum_fits_prefix<V: Value>(stream: Seq<V>, inputs: Seq<usize>, k: nat, n: nat)
    requires
        k <= n,
        input_sum_fits(stream, inputs, n),
    ensures
        input_sum_fits(stream, inputs, k),
    decreases n,
{
    if k < n {
        input_sum_fits_prefix(stream, inputs, k, (n - 1) as nat);
    }
}

/// A summation as a mathematical value.
pub struct AdderModel<T, V> {
    pub core: CoreModel<T, V>,
}

impl<T: Time, V: Value> AdderModel<T, V> {
    /// The sum of the wired stream values, where every partial sum can be
    /// represented; zero for a block with nothing wired.
    pub open spec fn output_for(self, stream: Seq<V>) -> Result<V, NumericError> {
        if !input_sum_fits(stream, self.core.inputs, self.core.inputs.len()) {
            Err(NumericError::Overflow)
        } else {
            Ok(value_of::<V>(input_sum(stream, self.core.inputs, self.core.inputs.len())))
        }
    }
}

/// An operator whose output is the sum of the stream values it is wired to,
/// computed anew on every step.
pub struct Adder<T, V> {
    core: BlockCore<T, V>,
}

impl<T: Time, V: Value> Adder<T, V> {
    /// An unwired adder at time zero with the default step and zero as
    /// its initial output.
    pub fn new() -> (s: Self)
        ensures
            s.model() == (AdderModel {
                core: CoreModel::initial(
                    value_of::<T>(0),
                    value_of::<T>(T::default_step()),
                    value_of::<V>(0),
                ),
            }),
            Self::valid(s.model()),
    {
        let zero = V::zero();
        proof {
            value_of_as_int(zero);
        }
        Adder { core: BlockCore::with_default_step(zero) }
    }

    /// An unwired adder that starts at `start_time` and steps by
    /// `step_size`. Refused with `Overflow` where the time of the first step
    /// cannot be represented.
    pub fn from(start_time: T, step_size: T) -> (r: Result<Self, NumericError>)
        ensures
            match r {
                Ok(s) => s.model() == (AdderModel {
                    core: CoreModel::initial(start_time, step_size, value_of::<V>(0)),
                }) && Self::valid(s.model()),
                Err(e) => e == NumericError::Overflow && !T::representable(
                    start_time.as_int() + step_size.as_int(),
                ),
            },
    {
        let zero = V::zero();
        proof {
            value_of_as_int(zero);
        }
        match BlockCore::new(start_time, step_size, zero) {
            Ok(core) => Ok(Adder { core }),
            Err(e) => Err(e),
        }
    }

    /// The outputs so far, each with the time it was computed for; the first
    /// entry is the initial output.
    pub fn get_output_history(&self) -> (h: &Vec<(T, V)>)
        ensures
            h@ == self.model().core.history,
    {
        self.core.output_history()
    }

    fn output_for(&self, stream: &Vec<V>) -> (r: Result<V, NumericError>)
        requires
            all_below(self.model().core.inputs, stream@.len()),
        ensures
            r == self.model().output_for(stream@),
    {
        let inputs = self.core.inputs();
        let n = inputs.len();
        let mut acc = V::zero();
        let mut i: usize = 0;
        while i < n
            invariant
                i <= n,
                n == inputs@.len(),
                inputs@ == self.model().core.inputs,
                all_below(inputs@, stream@.len()),
                input_sum_fits(stream@, inputs@, i as nat),
                acc.as_int() == input_sum(stream@, inputs@, i as nat),
            decreases n - i,
        {
            proof {
                if input_sum_fits(stream@, inputs@, n as nat) {
                    input_sum_fits_prefix(stream@, inputs@, (i + 1) as nat, n as nat);
                }
                assert(input_sum(stream@, inputs@, (i + 1) as nat) == input_sum(
                    stream@,
                    inputs@,
                    i as nat,
                ) + stream@[inputs@[i as int] as int].as_int());
            }
            acc = match acc.add_checked(stream[inputs[i]]) {
                Some(x) => x,
                None => {
                    return Err(NumericError::Overflow);
                },
            };
            i += 1;
        }
        proof {
            value_of_as_int(acc);
        }
        Ok(acc)
    }
}

impl<T: Time, V: Value> SimSystem<T, V> for Adder<T, V> {
    type Model = AdderModel<T, V>;

    closed spec fn model(&self) -> AdderModel<T, V> {
        AdderModel { core: self.core.model() }
    }

    open spec fn valid(m: AdderModel<T, V>) -> bool {
        m.core.valid()
    }

    open spec fn next_time_of(m: AdderModel<T, V>) -> T {
        m.core.next_time()
    }

    open spec fn dim_of(m: AdderModel<T, V>) -> nat {
        1
    }

    open spec fn output_start_of(m: AdderModel<T, V>) -> nat {
        m.core.output_start as nat
    }

    open spec fn inputs_of(m: AdderModel<T, V>) -> Seq<usize> {
        m.core.inputs
    }

    open spec fn step_of(m: AdderModel<T, V>, stream: Seq<V>) -> Result<
        (AdderModel<T, V>, Seq<V>),
        NumericError,
    > {
        match m.core.advanced() {
            Err(e) => Err(e),
            Ok(t) => match m.output_for(stream) {
                Err(e) => Err(e),
                Ok(y) => Ok((AdderModel { core: m.core.committed(t, y), ..m }, seq![y])),
            },
        }
    }

    open spec fn with_output_start(m: AdderModel<T, V>, start: usize) -> AdderModel<T, V> {
        AdderModel { core: m.core.with_output_start(start), ..m }
    }

    open spec fn with_input(m: AdderModel<T, V>, input: usize) -> AdderModel<T, V> {
        AdderModel { core: m.core.with_input(input), ..m }
    }

    proof fn step_law(m: AdderModel<T, V>, stream: Seq<V>) {
        if let Ok((n, out)) = Self::step_of(m, stream) {
            m.core.advance_law(out[0]);
        }
    }

    proof fn placement_law(m: AdderModel<T, V>, start: usize) {
    }

    proof fn wiring_law(m: AdderModel<T, V>, input: usize) {
    }

    fn next_step(&mut self, stream: &mut Vec<V>) -> (r: Result<(), NumericError>) {
        let t = match self.core.advance() {
            Ok(t) => t,
            Err(e) => {
                return Err(e);
            },
        };
        let y = match self.output_for(stream) {
            Ok(y) => y,
            Err(e) => {
                return Err(e);
            },
        };
        self.core.commit(t, y, stream);
        proof {
            assert(stream@ =~= write_region(
                old(stream)@,
                old(self).model().core.output_start as int,
                seq![y],
            ));
        }
        Ok(())
    }

    fn get_next_time(&self) -> (t: T) {
        self.core.next_time()
    }

    fn get_dim(&self) -> (d: usize) {
        1
    }

    fn get_output_start(&self) -> (s: usize) {
        self.core.output_start()
    }

    fn add_input(&mut self, input: usize) {
        self.core.add_input(input);
    }

    fn set_outputs(&mut self, output_start: usize) {
        self.core.set_outputs(output_start);
    }
}

impl<T: Time, V: Value> Source<T, V> for Adder<T, V> {
    /// The one output, whatever the port.
    open spec fn latest_output(m: AdderModel<T, V>, port: int) -> V {
        m.core.output
    }

    proof fn source_law(m: AdderModel<T, V>, stream: Seq<V>) {
    }

    fn get_output_ref(&self, port: usize) -> (y: &V) {
        self.core.output()
    }
}

/// The sum over two inputs is the sum of the two stream values.
pub proof fn input_sum_of_two<V: Value>(stream: Seq<V>, inputs: Seq<usize>)
    requires
        inputs.len() == 2,
    ensures
        input_sum(stream, inputs, 2) == stream[inputs[0] as int].as_int()
            + stream[inputs[1] as int].as_int(),
{
    reveal_with_fuel(input_sum, 3);
}

impl<T: Time, V: Value> AdderModel<T, V> {
    /// A step that succeeds moves the clock by one step size and writes
    /// exactly the sum of the values that the stream held at the wired
    /// offsets when the step was taken.
    pub proof fn step_is_exact(self, stream: Seq<V>)
        requires
            Adder::<T, V>::valid(self),
        ensures
            Adder::<T, V>::step_of(self, stream) matches Ok((n, out)) ==> {
                &&& n.core.time.as_int() == self.core.time.as_int() + self.core.step_size.as_int()
                &&& out.len() == 1
                &&& out[0].as_int() == input_sum(stream, self.core.inputs, self.core.inputs.len())
                &&& n.core.output == out[0]
            },
    {
        if let Ok((n, out)) = Adder::<T, V>::step_of(self, stream) {
            self.core.advance_law(out[0]);
            let k = self.core.inputs.len();
            if k > 0 {
                assert(V::representable(input_sum(stream, self.core.inputs, k)));
            } else {
                V::value_laws(out[0], out[0]);
            }
            value_of_represents::<V>(input_sum(stream, self.core.inputs, k));
        }
    }
}

/// A negator as a mathematical value.
pub struct NegatorModel<T, V> {
    pub core: CoreModel<T, V>,
}

impl<T: Time, V: Value> NegatorModel<T, V> {
    /// The negated stream value at the input wired last, where it can be
    /// represented; zero for a block with nothing wired.
    pub open spec fn output_for(self, stream: Seq<V>) -> Result<V, NumericError> {
        if self.core.inputs.len() == 0 {
            Ok(value_of::<V>(0))
        } else if !V::representable(-stream[self.core.inputs.last() as int].as_int()) {
            Err(NumericError::Overflow)
        } else {
            Ok(value_of::<V>(-stream[self.core.inputs.last() as int].as_int()))
        }
    }
}

/// An operator whose output is its input with the sign changed.
pub struct Negator<T, V> {
    core: BlockCore<T, V>,
}

impl<T: Time, V: Value> Negator<T, V> {
    /// An unwired negator at time zero with the default step and zero as
    /// its initial output.
    pub fn new() -> (s: Self)
        ensures
            s.model() == (NegatorModel {
                core: CoreModel::initial(
                    value_of::<T>(0),
                    value_of::<T>(T::default_step()),
                    value_of::<V>(0),
                ),
            }),
            Self::valid(s.model()),
    {
        let zero = V::zero();
        proof {
            value_of_as_int(zero);
        }
        Negator { core: BlockCore::with_default_step(zero) }
    }

    /// An unwired negator that starts at `start_time` and steps by
    /// `step_size`. Refused with `Overflow` where the time of the first step
    /// cannot be represented.
    pub fn from(start_time: T, step_size: T) -> (r: Result<Self, NumericError>)
        ensures
            match r {
                Ok(s) => s.model() == (NegatorModel {
                    core: CoreModel::initial(start_time, step_size, value_of::<V>(0)),
                }) && Self::valid(s.model()),
                Err(e) => e == NumericError::Overflow && !T::representable(
                    start_time.as_int() + step_size.as_int(),
                ),
            },
    {
        let zero = V::zero();
        proof {
            value_of_as_int(zero);
        }
        match BlockCore::new(start_time, step_size, zero) {
            Ok(core) => Ok(Negator { core }),
            Err(e) => Err(e),
        }
    }

    /// The outputs so far, each with the time it was computed for; the first
    /// entry is the initial output.
    pub fn get_output_history(&self) -> (h: &Vec<(T, V)>)
        ensures
            h@ == self.model().core.history,
    {
        self.core.output_history()
    }

    fn output_for(&self, stream: &Vec<V>) -> (r: Result<V, NumericError>)
        requires
            all_below(self.model().core.inputs, stream@.len()),
        ensures
            r == self.model().output_for(stream@),
    {
        let inputs = self.core.inputs();
        let n = inputs.len();
        if n == 0 {
            let zero = V::zero();
            proof {
                value_of_as_int(zero);
            }
            return Ok(zero);
        }
        match stream[inputs[n - 1]].neg_checked() {
            Some(y) => {
                proof {
                    value_of_as_int(y);
                }
                Ok(y)
            },
            None => Err(NumericError::Overflow),
        }
    }
}

impl<T: Time, V: Value> SimSystem<T, V> for Negator<T, V> {
    type Model = NegatorModel<T, V>;

    closed spec fn model(&self) -> NegatorModel<T, V> {
        NegatorModel { core: self.core.model() }
    }

    open spec fn valid(m: NegatorModel<T, V>) -> bool {
        m.core.valid()
    }

    open spec fn next_time_of(m: NegatorModel<T, V>) -> T {
        m.core.next_time()
    }

    open spec fn dim_of(m: NegatorModel<T, V>) -> nat {
        1
    }

    open spec fn output_start_of(m: NegatorModel<T, V>) -> nat {
        m.core.output_start as nat
    }

    open spec fn inputs_of(m: NegatorModel<T, V>) -> Seq<usize> {
        m.core.inputs
    }

    open spec fn step_of(m: NegatorModel<T, V>, stream: Seq<V>) -> Result<
        (NegatorModel<T, V>, Seq<V>),
        NumericError,
    > {
        match m.core.advanced() {
            Err(e) => Err(e),
            Ok(t) => match m.output_for(stream) {
                Err(e) => Err(e),
                Ok(y) => Ok((NegatorModel { core: m.core.committed(t, y), ..m }, seq![y])),
            },
        }
    }

    open spec fn with_output_start(m: NegatorModel<T, V>, start: usize) -> NegatorModel<T, V> {
        NegatorModel { core: m.core.with_output_start(start), ..m }
    }

    open spec fn with_input(m: NegatorModel<T, V>, input: usize) -> NegatorModel<T, V> {
        NegatorModel { core: m.core.with_input(input), ..m }
    }

    proof fn step_law(m: NegatorModel<T, V>, stream: Seq<V>) {
        if let Ok((n, out)) = Self::step_of(m, stream) {
            m.core.advance_law(out[0]);
        }
    }

    proof fn placement_law(m: NegatorModel<T, V>, start: usize) {
    }

    proof fn wiring_law(m: NegatorModel<T, V>, input: usize) {
    }

    fn next_step(&mut self, stream: &mut Vec<V>) -> (r: Result<(), NumericError>) {
        let t = match self.core.advance() {
            Ok(t) => t,
            Err(e) => {
                return Err(e);
            },
        };
        let y = match self.output_for(stream) {
            Ok(y) => y,
            Err(e) => {
                return Err(e);
            },
        };
        self.core.commit(t, y, stream);
        proof {
            assert(stream@ =~= write_region(
                old(stream)@,
                old(self).model().core.output_start as int,
                seq![y],
            ));
        }
        Ok(())
    }

    fn get_next_time(&self) -> (t: T) {
        self.core.next_time()
    }

    fn get_dim(&self) -> (d: usize) {
        1
    }

    fn get_output_start(&self) -> (s: usize) {
        self.core.output_start()
    }

    fn add_input(&mut self, input: usize) {
        self.core.add_input(input);
    }

    fn set_outputs(&mut self, output_start: usize) {
        self.core.set_outputs(output_start);
    }
}

impl<T: Time, V: Value> Source<T, V> for Negator<T, V> {
    /// The one output, whatever the port.
    open spec fn latest_output(m: NegatorModel<T, V>, port: int) -> V {
        m.core.output
    }

    proof fn source_law(m: NegatorModel<T, V>, stream: Seq<V>) {
    }

    fn get_output_ref(&self, port: usize) -> (y: &V) {
        self.core.output()
    }
}

/// The offsets of the wired ports among the first `n`, in port order.
pub open spec fn wired_ports(ports: Seq<Option<usize>>, n: nat) -> Seq<usize>
    decreases n,
{
    if n == 0 {
        Seq::empty()
    } else {
        match ports[n - 1] {
            Some(x) => wired_ports(ports, (n - 1) as nat).push(x),
            None => wired_ports(ports, (n - 1) as nat),
        }
    }
}

/// Whether every port is wired.
pub open spec fn all_wired(ports: Seq<Option<usize>>) -> bool {
    forall|k: int| 0 <= k < ports.len() ==> (#[trigger] ports[k]) is Some
}

/// Whether every wired port reads a slot of a stream of `len` values.
pub open spec fn ports_below(ports: Seq<Option<usize>>, len: nat) -> bool {
    forall|k: int| 0 <= k < ports.len() ==> (#[trigger] ports[k] matches Some(x) ==> x < len)
}

/// The product of the stream values at the first `n` ports, an unwired port
/// counting as zero; one for no port at all.
pub open spec fn port_product<V: Value>(stream: Seq<V>, ports: Seq<Option<usize>>, n: nat) -> int
    decreases n,
{
    if n == 0 {
        1
    } else {
        port_product(stream, ports, (n - 1) as nat) * (match ports[n - 1] {
            Some(x) => stream[x as int].as_int(),
            None => 0,
        })
    }
}

/// Whether every partial product over the first `n` ports can be represented.
pub open spec fn port_product_fits<V: Value>(
    stream: Seq<V>,
    ports: Seq<Option<usize>>,
    n: nat,
) -> bool
    decreases n,
{
    n == 0 || {
        &&& port_product_fits(stream, ports, (n - 1) as nat)
        &&& V::representable(port_product(stream, ports, n))
    }
}

/// Partial products that fit up to `n` fit up to any `k` below.
pub proof fn port_product_fits_prefix<V: Value>(
    stream: Seq<V>,
    ports: Seq<Option<usize>>,
    k: nat,
    n: nat,
)
    requires
        k <= n,
        port_product_fits(stream, ports, n),
    ensures
        port_product_fits(stream, ports, k),
    decreases n,
{
    if k < n {
        port_product_fits_prefix(stream, ports, k, (n - 1) as nat);
    }
}

/// Port lists that agree on the first `n` ports have the same wired offsets
/// there.
pub proof fn wired_ports_agree(p: Seq<Option<usize>>, q: Seq<Option<usize>>, n: nat)
    requires
        n <= p.len(),
        n <= q.len(),
        forall|k: int| 0 <= k < n ==> p[k] == q[k],
    ensures
        wired_ports(p, n) == wired_ports(q, n),
    decreases n,
{
    if n > 0 {
        wired_ports_agree(p, q, (n - 1) as nat);
    }
}

/// The wired offsets among the first `n` ports are the offsets of those
/// ports, and no others.
pub proof fn wired_ports_are_the_ports(ports: Seq<Option<usize>>, n: nat)
    requires
        n <= ports.len(),
    ensures
        forall|k: int|
            0 <= k < n && (#[trigger] ports[k]) is Some ==> wired_ports(ports, n).contains(
                ports[k]->Some_0,
            ),
        forall|j: int|
            0 <= j < wired_ports(ports, n).len() ==> exists|k: int|
                0 <= k < n && ports[k] == Some(#[trigger] wired_ports(ports, n)[j]),
    decreases n,
{
    if n > 0 {
        let before = wired_ports(ports, (n - 1) as nat);
        let now = wired_ports(ports, n);
        wired_ports_are_the_ports(ports, (n - 1) as nat);
        assert forall|k: int| 0 <= k < n && (#[trigger] ports[k]) is Some implies now.contains(
            ports[k]->Some_0,
        ) by {
            if k < n - 1 {
                let x = ports[k]->Some_0;
                assert(before.contains(x));
                let j = choose|j: int| 0 <= j < before.len() && before[j] == x;
                assert(now[j] == x);
            } else {
                assert(now[now.len() - 1] == ports[k]->Some_0);
            }
        }
        assert forall|j: int| 0 <= j < now.len() implies exists|k: int|
            0 <= k < n && ports[k] == Some(#[trigger] now[j]) by {
            if j < before.len() {
                assert(now[j] == before[j]);
                let k = choose|k: int| 0 <= k < n - 1 && ports[k] == Some(before[j]);
                assert(0 <= k < n && ports[k] == Some(now[j]));
            } else {
                assert(ports[n - 1] == Some(now[j]));
            }
        }
    }
}

/// A multiplier as a mathematical value: its ports, each wired to a stream
/// offset or not, and the state all blocks share. The ports stand in place of
/// the shared list of inputs.
pub struct MultiplierModel<T, V> {
    pub ports: Seq<Option<usize>>,
    pub core: CoreModel<T, V>,
}

impl<T: Time, V: Value> MultiplierModel<T, V> {
    /// Zero while any port is unwired; else the product of the stream values
    /// at the ports, where every partial product can be represented. A
    /// multiplier without ports gives one.
    pub open spec fn output_for(self, stream: Seq<V>) -> Result<V, NumericError> {
        if !all_wired(self.ports) {
            Ok(value_of::<V>(0))
        } else if !port_product_fits(stream, self.ports, self.ports.len()) {
            Err(NumericError::Overflow)
        } else {
            Ok(value_of::<V>(port_product(stream, self.ports, self.ports.len())))
        }
    }
}

/// An operator whose output is the product of the stream values at its
/// ports, computed anew on every step. The number of ports is chosen when the
/// block is made; a connection made through the diagram adds a port of its
/// own, wired from the start.
pub struct Multiplier<T, V> {
    ports: Vec<Option<usize>>,
    core: BlockCore<T, V>,
}

impl<T: Time, V: Value> Multiplier<T, V> {
    fn unwired(ports: usize) -> (v: Vec<Option<usize>>)
        ensures
            v@ == Seq::new(ports as nat, |k: int| None::<usize>),
    {
        let mut v: Vec<Option<usize>> = Vec::new();
        let mut i: usize = 0;
        while i < ports
            invariant
                i <= ports,
                v@ == Seq::new(i as nat, |k: int| None::<usize>),
            decreases ports - i,
        {
            v.push(None);
            proof {
                assert(v@ =~= Seq::new((i + 1) as nat, |k: int| None::<usize>));
            }
            i += 1;
        }
        v
    }

    /// A multiplier with `ports` ports, none of them wired, at time zero with
    /// the default step and zero as its initial output.
    pub fn new(ports: usize) -> (s: Self)
        ensures
            s.model() == (MultiplierModel {
                ports: Seq::new(ports as nat, |k: int| None::<usize>),
                core: CoreModel::initial(
                    value_of::<T>(0),
                    value_of::<T>(T::default_step()),
                    value_of::<V>(0),
                ),
            }),
            Self::valid(s.model()),
    {
        let zero = V::zero();
        proof {
            value_of_as_int(zero);
        }
        Multiplier { ports: Self::unwired(ports), core: BlockCore::with_default_step(zero) }
    }

    /// A multiplier with `ports` ports, none of them wired, that starts at
    /// `start_time` and steps by `step_size`. Refused with `Overflow` where
    /// the time of the first step cannot be represented.
    pub fn from(ports: usize, start_time: T, step_size: T) -> (r: Result<Self, NumericError>)
        ensures
            match r {
                Ok(s) => s.model() == (MultiplierModel {
                    ports: Seq::new(ports as nat, |k: int| None::<usize>),
                    core: CoreModel::initial(start_time, step_size, value_of::<V>(0)),
                }) && Self::valid(s.model()),
                Err(e) => e == NumericError::Overflow && !T::representable(
                    start_time.as_int() + step_size.as_int(),
                ),
            },
    {
        let zero = V::zero();
        proof {
            value_of_as_int(zero);
        }
        match BlockCore::new(start_time, step_size, zero) {
            Ok(core) => Ok(Multiplier { ports: Self::unwired(ports), core }),
            Err(e) => Err(e),
        }
    }

    /// The outputs so far, each with the time it was computed for; the first
    /// entry is the initial output.
    pub fn get_output_history(&self) -> (h: &Vec<(T, V)>)
        ensures
            h@ == self.model().core.history,
    {
        self.core.output_history()
    }

    fn output_for(&self, stream: &Vec<V>) -> (r: Result<V, NumericError>)
        requires
            ports_below(self.model().ports, stream@.len()),
        ensures
            r == self.model().output_for(stream@),
    {
        let n = self.ports.len();
        let ghost ports = self.ports@;
        let mut i: usize = 0;
        while i < n
            invariant
                i <= n,
                n == ports.len(),
                ports == self.ports@,
                forall|k: int| 0 <= k < i ==> (#[trigger] ports[k]) is Some,
            decreases n - i,
        {
            match self.ports[i] {
                Some(_) => {},
                None => {
                    let zero = V::zero();
                    proof {
                        value_of_as_int(zero);
                        assert(ports[i as int] is None);
                    }
                    return Ok(zero);
                },
            }
            i += 1;
        }
        let mut acc = V::one();
        i = 0;
        while i < n
            invariant
                i <= n,
                n == ports.len(),
                ports == self.ports@,
                all_wired(ports),
                ports_below(ports, stream@.len()),
                port_product_fits(stream@, ports, i as nat),
                acc.as_int() == port_product(stream@, ports, i as nat),
            decreases n - i,
        {
            proof {
                if port_product_fits(stream@, ports, n as nat) {
                    port_product_fits_prefix(stream@, ports, (i + 1) as nat, n as nat);
                }
                assert(ports[i as int] is Some);
                assert(port_product(stream@, ports, (i + 1) as nat) == port_product(
                    stream@,
                    ports,
                    i as nat,
                ) * stream@[ports[i as int]->Some_0 as int].as_int());
            }
            let factor = match self.ports[i] {
                Some(x) => stream[x],
                None => V::zero(),
            };
            acc = match acc.mul_checked(factor) {
                Some(x) => x,
                None => {
                    return Err(NumericError::Overflow);
                },
            };
            i += 1;
        }
        proof {
            value_of_as_int(acc);
        }
        Ok(acc)
    }
}

impl<T: Time, V: Value> SimSystem<T, V> for Multiplier<T, V> {
    type Model = MultiplierModel<T, V>;

    closed spec fn model(&self) -> MultiplierModel<T, V> {
        MultiplierModel { ports: self.ports@, core: self.core.model() }
    }

    open spec fn valid(m: MultiplierModel<T, V>) -> bool {
        m.core.valid()
    }

    open spec fn next_time_of(m: MultiplierModel<T, V>) -> T {
        m.core.next_time()
    }

    open spec fn dim_of(m: MultiplierModel<T, V>) -> nat {
        1
    }

    open spec fn output_start_of(m: MultiplierModel<T, V>) -> nat {
        m.core.output_start as nat
    }

    /// The offsets of the wired ports, in port order.
    open spec fn inputs_of(m: MultiplierModel<T, V>) -> Seq<usize> {
        wired_ports(m.ports, m.ports.len())
    }

    open spec fn step_of(m: MultiplierModel<T, V>, stream: Seq<V>) -> Result<
        (MultiplierModel<T, V>, Seq<V>),
        NumericError,
    > {
        match m.core.advanced() {
            Err(e) => Err(e),
            Ok(t) => match m.output_for(stream) {
                Err(e) => Err(e),
                Ok(y) => Ok((MultiplierModel { core: m.core.committed(t, y), ..m }, seq![y])),
            },
        }
    }

    open spec fn with_output_start(m: MultiplierModel<T, V>, start: usize) -> MultiplierModel<
        T,
        V,
    > {
        MultiplierModel { core: m.core.with_output_start(start), ..m }
    }

    /// One more port, wired to `input`.
    open spec fn with_input(m: MultiplierModel<T, V>, input: usize) -> MultiplierModel<T, V> {
        MultiplierModel { ports: m.ports.push(Some(input)), ..m }
    }

    proof fn step_law(m: MultiplierModel<T, V>, stream: Seq<V>) {
        if let Ok((n, out)) = Self::step_of(m, stream) {
            m.core.advance_law(out[0]);
        }
    }

    proof fn placement_law(m: MultiplierModel<T, V>, start: usize) {
    }

    proof fn wiring_law(m: MultiplierModel<T, V>, input: usize) {
        wired_ports_agree(m.ports, m.ports.push(Some(input)), m.ports.len());
    }

    fn next_step(&mut self, stream: &mut Vec<V>) -> (r: Result<(), NumericError>) {
        let t = match self.core.advance() {
            Ok(t) => t,
            Err(e) => {
                return Err(e);
            },
        };
        proof {
            let ports = self.model().ports;
            wired_ports_are_the_ports(ports, ports.len());
            assert forall|k: int| 0 <= k < ports.len() implies (#[trigger] ports[k] matches Some(x)
                ==> x < stream@.len()) by {
                if ports[k] is Some {
                    let x = ports[k]->Some_0;
                    let w = wired_ports(ports, ports.len());
                    assert(w.contains(x));
                    let j = choose|j: int| 0 <= j < w.len() && w[j] == x;
                    assert(w[j] < stream@.len());
                }
            }
        }
        let y = match self.output_for(stream) {
            Ok(y) => y,
            Err(e) => {
                return Err(e);
            },
        };
        self.core.commit(t, y, stream);
        proof {
            assert(stream@ =~= write_region(
                old(stream)@,
                old(self).model().core.output_start as int,
                seq![y],
            ));
        }
        Ok(())
    }

    fn get_next_time(&self) -> (t: T) {
        self.core.next_time()
    }

    fn get_dim(&self) -> (d: usize) {
        1
    }

    fn get_output_start(&self) -> (s: usize) {
        self.core.output_start()
    }

    fn add_input(&mut self, input: usize) {
        self.ports.push(Some(input));
    }

    fn set_outputs(&mut self, output_start: usize) {
        self.core.set_outputs(output_start);
    }
}

impl<T: Time, V: Value> Source<T, V> for Multiplier<T, V> {
    /// The one output, whatever the port.
    open spec fn latest_output(m: MultiplierModel<T, V>, port: int) -> V {
        m.core.output
    }

    proof fn source_law(m: MultiplierModel<T, V>, stream: Seq<V>) {
    }

    fn get_output_ref(&self, port: usize) -> (y: &V) {
        self.core.output()
    }
}

impl<T: Time, V: Value> Sink<T, V> for Multiplier<T, V> {
    /// The ports the multiplier was made with, and those added since.
    open spec fn has_port(m: MultiplierModel<T, V>, port: usize) -> bool {
        port < m.ports.len()
    }

    /// Port `port` reads the stream at `input`; every other port is as it was.
    open spec fn with_port(m: MultiplierModel<T, V>, input: usize, port: usize) -> MultiplierModel<
        T,
        V,
    > {
        MultiplierModel { ports: m.ports.update(port as int, Some(input)), ..m }
    }

    proof fn port_law(m: MultiplierModel<T, V>, input: usize, port: usize) {
        let n = Self::with_port(m, input, port);
        let before = wired_ports(m.ports, m.ports.len());
        let now = wired_ports(n.ports, n.ports.len());
        wired_ports_are_the_ports(m.ports, m.ports.len());
        wired_ports_are_the_ports(n.ports, n.ports.len());
        assert(n.ports[port as int] is Some);
        assert(now.contains(input));
        assert forall|k: int| 0 <= k < now.len() implies {
            let x = #[trigger] now[k];
            x == input || before.contains(x)
        } by {
            let x = now[k];
            let p = choose|p: int| 0 <= p < n.ports.len() && n.ports[p] == Some(x);
            if p != port {
                assert(m.ports[p] is Some);
                assert(before.contains(m.ports[p]->Some_0));
            }
        }
    }

    fn set_input(&mut self, input: usize, port: usize) {
        self.ports.set(port, Some(input));
    }
}

impl<T: Time, V: Value> MultiplierModel<T, V> {
    /// A step that succeeds moves the clock by one step size, adds one entry
    /// to the history and writes zero if any port is unwired, else exactly
    /// the product of the values that the stream held at the ports when the
    /// step was taken: one for a multiplier without ports. The ports stay as
    /// they were.
    pub proof fn step_is_exact(self, stream: Seq<V>)
        requires
            Multiplier::<T, V>::valid(self),
        ensures
            Multiplier::<T, V>::step_of(self, stream) matches Ok((n, out)) ==> {
                &&& n.core.time.as_int() == self.core.time.as_int() + self.core.step_size.as_int()
                &&& n.core.history == self.core.history.push((n.core.time, out[0]))
                &&& n.ports == self.ports
                &&& out.len() == 1
                &&& n.core.output == out[0]
                &&& !all_wired(self.ports) ==> out[0].as_int() == 0
                &&& all_wired(self.ports) ==> out[0].as_int() == port_product(
                    stream,
                    self.ports,
                    self.ports.len(),
                )
                &&& self.ports.len() == 0 ==> out[0].as_int() == 1
            },
    {
        if let Ok((n, out)) = Multiplier::<T, V>::step_of(self, stream) {
            self.core.advance_law(out[0]);
            V::value_laws(out[0], out[0]);
            if all_wired(self.ports) {
                let k = self.ports.len();
                if k > 0 {
                    assert(V::representable(port_product(stream, self.ports, k)));
                }
                value_of_represents::<V>(port_product(stream, self.ports, k));
            } else {
                value_of_represents::<V>(0);
            }
        }
    }
}

/// An inverter as a mathematical value.
pub struct InverterModel<T, V> {
    pub core: CoreModel<T, V>,
}

impl<T: Time, V: Value> InverterModel<T, V> {
    /// One divided by the stream value at the input wired last, rounded
    /// towards zero; zero for a block with nothing wired. A zero input is
    /// refused with `DivisionByZero`.
    pub open spec fn output_for(self, stream: Seq<V>) -> Result<V, NumericError> {
        if self.core.inputs.len() == 0 {
            Ok(value_of::<V>(0))
        } else if stream[self.core.inputs.last() as int].as_int() == 0 {
            Err(NumericError::DivisionByZero)
        } else if !V::representable(trunc_div(1, stream[self.core.inputs.last() as int].as_int())) {
            Err(NumericError::Overflow)
        } else {
            Ok(value_of::<V>(trunc_div(1, stream[self.core.inputs.last() as int].as_int())))
        }
    }
}

/// An operator whose output is one divided by its input.
pub struct Inverter<T, V> {
    core: BlockCore<T, V>,
}

impl<T: Time, V: Value> Inverter<T, V> {
    /// An unwired inverter at time zero with the default step and zero as
    /// its initial output.
    pub fn new() -> (s: Self)
        ensures
            s.model() == (InverterModel {
                core: CoreModel::initial(
                    value_of::<T>(0),
                    value_of::<T>(T::default_step()),
                    value_of::<V>(0),
                ),
            }),
            Self::valid(s.model()),
    {
        let zero = V::zero();
        proof {
            value_of_as_int(zero);
        }
        Inverter { core: BlockCore::with_default_step(zero) }
    }

    /// An unwired inverter that starts at `start_time` and steps by
    /// `step_size`. Refused with `Overflow` where the time of the first step
    /// cannot be represented.
    pub fn from(start_time: T, step_size: T) -> (r: Result<Self, NumericError>)
        ensures
            match r {
                Ok(s) => s.model() == (InverterModel {
                    core: CoreModel::initial(start_time, step_size, value_of::<V>(0)),
                }) && Self::valid(s.model()),
                Err(e) => e == NumericError::Overflow && !T::representable(
                    start_time.as_int() + step_size.as_int(),
                ),
            },
    {
        let zero = V::zero();
        proof {
            value_of_as_int(zero);
        }
        match BlockCore::new(start_time, step_size, zero) {
            Ok(core) => Ok(Inverter { core }),
            Err(e) => Err(e),
        }
    }

    /// The outputs so far, each with the time it was computed for; the first
    /// entry is the initial output.
    pub fn get_output_history(&self) -> (h: &Vec<(T, V)>)
        ensures
            h@ == self.model().core.history,
    {
        self.core.output_history()
    }

    fn output_for(&self, stream: &Vec<V>) -> (r: Result<V, NumericError>)
        requires
            all_below(self.model().core.inputs, stream@.len()),
        ensures
            r == self.model().output_for(stream@),
    {
        let inputs = self.core.inputs();
        let n = inputs.len();
        if n == 0 {
            let zero = V::zero();
            proof {
                value_of_as_int(zero);
            }
            return Ok(zero);
        }
        let x = stream[inputs[n - 1]];
        match V::one().div_checked(x) {
            Some(y) => {
                proof {
                    value_of_as_int(y);
                }
                Ok(y)
            },
            None => match x.widen() {
                Some(0) => Err(NumericError::DivisionByZero),
                _ => Err(NumericError::Overflow),
            },
        }
    }
}

impl<T: Time, V: Value> SimSystem<T, V> for Inverter<T, V> {
    type Model = InverterModel<T, V>;

    closed spec fn model(&self) -> InverterModel<T, V> {
        InverterModel { core: self.core.model() }
    }

    open spec fn valid(m: InverterModel<T, V>) -> bool {
        m.core.valid()
    }

    open spec fn next_time_of(m: InverterModel<T, V>) -> T {
        m.core.next_time()
    }

    open spec fn dim_of(m: InverterModel<T, V>) -> nat {
        1
    }

    open spec fn output_start_of(m: InverterModel<T, V>) -> nat {
        m.core.output_start as nat
    }

    open spec fn inputs_of(m: InverterModel<T, V>) -> Seq<usize> {
        m.core.inputs
    }

    open spec fn step_of(m: InverterModel<T, V>, stream: Seq<V>) -> Result<
        (InverterModel<T, V>, Seq<V>),
        NumericError,
    > {
        match m.core.advanced() {
            Err(e) => Err(e),
            Ok(t) => match m.output_for(stream) {
                Err(e) => Err(e),
                Ok(y) => Ok((InverterModel { core: m.core.committed(t, y), ..m }, seq![y])),
            },
        }
    }

    open spec fn with_output_start(m: InverterModel<T, V>, start: usize) -> InverterModel<T, V> {
        InverterModel { core: m.core.with_output_start(start), ..m }
    }

    open spec fn with_input(m: InverterModel<T, V>, input: usize) -> InverterModel<T, V> {
        InverterModel { core: m.core.with_input(input), ..m }
    }

    proof fn step_law(m: InverterModel<T, V>, stream: Seq<V>) {
        if let Ok((n, out)) = Self::step_of(m, stream) {
            m.core.advance_law(out[0]);
        }
    }

    proof fn placement_law(m: InverterModel<T, V>, start: usize) {
    }

    proof fn wiring_law(m: InverterModel<T, V>, input: usize) {
    }

    fn next_step(&mut self, stream: &mut Vec<V>) -> (r: Result<(), NumericError>) {
        let t = match self.core.advance() {
            Ok(t) => t,
            Err(e) => {
                return Err(e);
            },
        };
        let y = match self.output_for(stream) {
            Ok(y) => y,
            Err(e) => {
                return Err(e);
            },
        };
        self.core.commit(t, y, stream);
        proof {
            assert(stream@ =~= write_region(
                old(stream)@,
                old(self).model().core.output_start as int,
                seq![y],
            ));
        }
        Ok(())
    }

    fn get_next_time(&self) -> (t: T) {
        self.core.next_time()
    }

    fn get_dim(&self) -> (d: usize) {
        1
    }

    fn get_output_start(&self) -> (s: usize) {
        self.core.output_start()
    }

    fn add_input(&mut self, input: usize) {
        self.core.add_input(input);
    }

    fn set_outputs(&mut self, output_start: usize) {
        self.core.set_outputs(output_start);
    }
}

impl<T: Time, V: Value> Source<T, V> for Inverter<T, V> {
    /// The one output, whatever the port.
    open spec fn latest_output(m: InverterModel<T, V>, port: int) -> V {
        m.core.output
    }

    proof fn source_law(m: InverterModel<T, V>, stream: Seq<V>) {
    }

    fn get_output_ref(&self, port: usize) -> (y: &V) {
        self.core.output()
    }
}

impl<T: Time, V: Value> Sink<T, V> for Inverter<T, V> {
    /// The one input answers to every port.
    open spec fn has_port(m: InverterModel<T, V>, port: usize) -> bool {
        true
    }

    /// The block reads `input` from now on, whatever the port.
    open spec fn with_port(m: InverterModel<T, V>, input: usize, port: usize) -> InverterModel<
        T,
        V,
    > {
        Self::with_input(m, input)
    }

    proof fn port_law(m: InverterModel<T, V>, input: usize, port: usize) {
        let n = Self::with_port(m, input, port);
        assert(n.core.inputs[m.core.inputs.len() as int] == input);
        assert forall|k: int| 0 <= k < n.core.inputs.len() implies {
            let x = #[trigger] n.core.inputs[k];
            x == input || m.core.inputs.contains(x)
        } by {
            if k < m.core.inputs.len() {
                assert(m.core.inputs[k] == n.core.inputs[k]);
            }
        }
    }

    fn set_input(&mut self, input: usize, port: usize) {
        self.core.add_input(input);
    }
}

/// A gain as a mathematical value.
pub struct GainModel<T, V> {
    pub gain: V,
    pub core: CoreModel<T, V>,
}

impl<T: Time, V: Value> GainModel<T, V> {
    /// The stream value at the input wired last times the gain, where the
    /// product can be represented; zero for a block with nothing wired.
    pub open spec fn output_for(self, stream: Seq<V>) -> Result<V, NumericError> {
        if self.core.inputs.len() == 0 {
            Ok(value_of::<V>(0))
        } else if !V::representable(
            stream[self.core.inputs.last() as int].as_int() * self.gain.as_int(),
        ) {
            Err(NumericError::Overflow)
        } else {
            Ok(
                value_of::<V>(
                    stream[self.core.inputs.last() as int].as_int() * self.gain.as_int(),
                ),
            )
        }
    }
}

/// An operator whose output is its input times a fixed factor.
pub struct Gain<T, V> {
    gain: V,
    core: BlockCore<T, V>,
}

impl<T: Time, V: Value> Gain<T, V> {
    /// An unwired gain of one at time zero with the default step and zero as
    /// its initial output.
    pub fn new() -> (s: Self)
        ensures
            s.model() == (GainModel {
                gain: value_of::<V>(1),
                core: CoreModel::initial(
                    value_of::<T>(0),
                    value_of::<T>(T::default_step()),
                    value_of::<V>(0),
                ),
            }),
            Self::valid(s.model()),
    {
        let zero = V::zero();
        let gain = V::one();
        proof {
            value_of_as_int(zero);
            value_of_as_int(gain);
        }
        Gain { gain, core: BlockCore::with_default_step(zero) }
    }

    /// An unwired gain with the factor `gain` that starts at `start_time` and
    /// steps by `step_size`. Refused with `Overflow` where the time of the
    /// first step cannot be represented.
    pub fn from(gain: V, start_time: T, step_size: T) -> (r: Result<Self, NumericError>)
        ensures
            match r {
                Ok(s) => s.model() == (GainModel {
                    gain,
                    core: CoreModel::initial(start_time, step_size, value_of::<V>(0)),
                }) && Self::valid(s.model()),
                Err(e) => e == NumericError::Overflow && !T::representable(
                    start_time.as_int() + step_size.as_int(),
                ),
            },
    {
        let zero = V::zero();
        proof {
            value_of_as_int(zero);
        }
        match BlockCore::new(start_time, step_size, zero) {
            Ok(core) => Ok(Gain { gain, core }),
            Err(e) => Err(e),
        }
    }

    /// Wires the gain to read the stream at `input` from now on.
    pub fn set_input(&mut self, input: usize)
        ensures
            final(self).model() == Self::with_input(old(self).model(), input),
    {
        self.core.add_input(input);
    }

    /// The latest output.
    pub fn get_output_ref(&self) -> (y: &V)
        ensures
            *y == self.model().core.output,
    {
        self.core.output()
    }

    /// The latest output.
    pub fn get_output(&self) -> (y: V)
        ensures
            y == self.model().core.output,
    {
        *self.core.output()
    }

    /// The outputs so far, each with the time it was computed for; the first
    /// entry is the initial output.
    pub fn get_output_history(&self) -> (h: &Vec<(T, V)>)
        ensures
            h@ == self.model().core.history,
    {
        self.core.output_history()
    }

    fn output_for(&self, stream: &Vec<V>) -> (r: Result<V, NumericError>)
        requires
            all_below(self.model().core.inputs, stream@.len()),
        ensures
            r == self.model().output_for(stream@),
    {
        let inputs = self.core.inputs();
        let n = inputs.len();
        if n == 0 {
            let zero = V::zero();
            proof {
                value_of_as_int(zero);
            }
            return Ok(zero);
        }
        match stream[inputs[n - 1]].mul_checked(self.gain) {
            Some(y) => {
                proof {
                    value_of_as_int(y);
                }
                Ok(y)
            },
            None => Err(NumericError::Overflow),
        }
    }
}

impl<T: Time, V: Value> SimSystem<T, V> for Gain<T, V> {
    type Model = GainModel<T, V>;

    closed spec fn model(&self) -> GainModel<T, V> {
        GainModel { gain: self.gain, core: self.core.model() }
    }

    open spec fn valid(m: GainModel<T, V>) -> bool {
        m.core.valid()
    }

    open spec fn next_time_of(m: GainModel<T, V>) -> T {
        m.core.next_time()
    }

    open spec fn dim_of(m: GainModel<T, V>) -> nat {
        1
    }

    open spec fn output_start_of(m: GainModel<T, V>) -> nat {
        m.core.output_start as nat
    }

    open spec fn inputs_of(m: GainModel<T, V>) -> Seq<usize> {
        m.core.inputs
    }

    open spec fn step_of(m: GainModel<T, V>, stream: Seq<V>) -> Result<
        (GainModel<T, V>, Seq<V>),
        NumericError,
    > {
        match m.core.advanced() {
            Err(e) => Err(e),
            Ok(t) => match m.output_for(stream) {
                Err(e) => Err(e),
                Ok(y) => Ok((GainModel { core: m.core.committed(t, y), ..m }, seq![y])),
            },
        }
    }

    open spec fn with_output_start(m: GainModel<T, V>, start: usize) -> GainModel<T, V> {
        GainModel { core: m.core.with_output_start(start), ..m }
    }

    open spec fn with_input(m: GainModel<T, V>, input: usize) -> GainModel<T, V> {
        GainModel { core: m.core.with_input(input), ..m }
    }

    proof fn step_law(m: GainModel<T, V>, stream: Seq<V>) {
        if let Ok((n, out)) = Self::step_of(m, stream) {
            m.core.advance_law(out[0]);
        }
    }

    proof fn placement_law(m: GainModel<T, V>, start: usize) {
    }

    proof fn wiring_law(m: GainModel<T, V>, input: usize) {
    }

    fn next_step(&mut self, stream: &mut Vec<V>) -> (r: Result<(), NumericError>) {
        let t = match self.core.advance() {
            Ok(t) => t,
            Err(e) => {
                return Err(e);
            },
        };
        let y = match self.output_for(stream) {
            Ok(y) => y,
            Err(e) => {
                return Err(e);
            },
        };
        self.core.commit(t, y, stream);
        proof {
            assert(stream@ =~= write_region(
                old(stream)@,
                old(self).model().core.output_start as int,
                seq![y],
            ));
        }
        Ok(())
    }

    fn get_next_time(&self) -> (t: T) {
        self.core.next_time()
    }

    fn get_dim(&self) -> (d: usize) {
        1
    }

    fn get_output_start(&self) -> (s: usize) {
        self.core.output_start()
    }

    fn add_input(&mut self, input: usize) {
        self.core.add_input(input);
    }

    fn set_outputs(&mut self, output_start: usize) {
        self.core.set_outputs(output_start);
    }
}

impl<T: Time, V: Value> Source<T, V> for Gain<T, V> {
    /// The one output, whatever the port.
    open spec fn latest_output(m: GainModel<T, V>, port: int) -> V {
        m.core.output
    }

    proof fn source_law(m: GainModel<T, V>, stream: Seq<V>) {
    }

    fn get_output_ref(&self, port: usize) -> (y: &V) {
        self.core.output()
    }
}

impl<T: Time, V: Value> Sink<T, V> for Gain<T, V> {
    /// The one input answers to every port.
    open spec fn has_port(m: GainModel<T, V>, port: usize) -> bool {
        true
    }

    /// The block reads `input` from now on, whatever the port.
    open spec fn with_port(m: GainModel<T, V>, input: usize, port: usize) -> GainModel<T, V> {
        Self::with_input(m, input)
    }

    proof fn port_law(m: GainModel<T, V>, input: usize, port: usize) {
        let n = Self::with_port(m, input, port);
        assert(n.core.inputs[m.core.inputs.len() as int] == input);
        assert forall|k: int| 0 <= k < n.core.inputs.len() implies {
            let x = #[trigger] n.core.inputs[k];
            x == input || m.core.inputs.contains(x)
        } by {
            if k < m.core.inputs.len() {
                assert(m.core.inputs[k] == n.core.inputs[k]);
            }
        }
    }

    fn set_input(&mut self, input: usize, port: usize) {
        self.core.add_input(input);
    }
}

} // verus!
