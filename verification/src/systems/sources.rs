use vstd::prelude::*;
use vstd::arithmetic::power::pow;
use crate::base::{write_region, SimSystem, Source};
use crate::cast;
use crate::errors::NumericError;
use crate::numeric::{value_of, value_of_as_int, value_of_represents, Time, Value};
use crate::systems::{BlockCore, CoreModel};

verus! {

/// A ramp as a mathematical value.
pub struct LinearModel<T, V> {
    pub slope: V,
    pub offset: V,
    pub core: CoreModel<T, V>,
}

impl<T: Time, V: Value> LinearModel<T, V> {
    /// `slope * t + offset`, where the time, the product and the sum can each
    /// be represented in `V`.
    pub open spec fn output_at(self, t: T) -> Result<V, NumericError> {
        if !V::representable(t.as_int()) {
            Err(NumericError::CastFailure)
        } else if !V::representable(self.slope.as_int() * t.as_int()) {
            Err(NumericError::Overflow)
        } else if !V::representable(self.slope.as_int() * t.as_int() + self.offset.as_int()) {
            Err(NumericError::Overflow)
        } else {
            Ok(value_of::<V>(self.slope.as_int() * t.as_int() + self.offset.as_int()))
        }
    }
}

/// A source whose output is `slope * time + offset`, whatever it is wired to.
pub struct LinearSource<T, V> {
    slope: V,
    offset: V,
    core: BlockCore<T, V>,
}

impl<T: Time, V: Value> LinearSource<T, V> {
    /// The identity ramp: slope one, offset zero, from time zero with the
    /// default step.
    pub fn new() -> (s: Self)
        ensures
            s.model() == (LinearModel {
                slope: value_of::<V>(1),
                offset: value_of::<V>(0),
                core: CoreModel::initial(
                    value_of::<T>(0),
                    value_of::<T>(T::default_step()),
                    value_of::<V>(0),
                ),
            }),
            Self::valid(s.model()),
    {
        let slope = V::one();
        let offset = V::zero();
        proof {
            value_of_as_int(slope);
            value_of_as_int(offset);
        }
        LinearSource { slope, offset, core: BlockCore::with_default_step(offset) }
    }

    /// A ramp that starts at `start_time` and steps by `step_size`. Refused
    /// with `Overflow` where the time of the first step cannot be represented.
    pub fn from(slope: V, offset: V, start_time: T, step_size: T) -> (r: Result<Self, NumericError>)
        ensures
            match r {
                Ok(s) => s.model() == (LinearModel {
                    slope,
                    offset,
                    core: CoreModel::initial(start_time, step_size, offset),
                }) && Self::valid(s.model()),
                Err(e) => e == NumericError::Overflow && !T::representable(
                    start_time.as_int() + step_size.as_int(),
                ),
            },
    {
        match BlockCore::new(start_time, step_size, offset) {
            Ok(core) => Ok(LinearSource { slope, offset, core }),
            Err(e) => Err(e),
        }
    }

    /// The outputs so far, each with the time it was computed for; the first
    /// entry is the initial output.
    pub fn get_output_history(&self) -> (h: &Vec<(T, V)>)
        ensures
            h@ == self.model().core.history,
    {
        self.core.output_history()
    }

    fn output_at(&self, t: T) -> (r: Result<V, NumericError>)
        ensures
            r == self.model().output_at(t),
    {
        let tv: V = match cast::<T, V>(t) {
            Ok(v) => v,
            Err(e) => {
                return Err(e);
            },
        };
        let p = match self.slope.mul_checked(tv) {
            Some(p) => p,
            None => {
                return Err(NumericError::Overflow);
            },
        };
        match p.add_checked(self.offset) {
            Some(y) => {
                proof {
                    value_of_as_int(y);
                }
                Ok(y)
            },
            None => Err(NumericError::Overflow),
        }
    }
}

impl<T: Time, V: Value> SimSystem<T, V> for LinearSource<T, V> {
    type Model = LinearModel<T, V>;

    closed spec fn model(&self) -> LinearModel<T, V> {
        LinearModel { slope: self.slope, offset: self.offset, core: self.core.model() }
    }

    open spec fn valid(m: LinearModel<T, V>) -> bool {
        m.core.valid()
    }

    open spec fn next_time_of(m: LinearModel<T, V>) -> T {
        m.core.next_time()
    }

    open spec fn dim_of(m: LinearModel<T, V>) -> nat {
        1
    }

    open spec fn output_start_of(m: LinearModel<T, V>) -> nat {
        m.core.output_start as nat
    }

    open spec fn inputs_of(m: LinearModel<T, V>) -> Seq<usize> {
        m.core.inputs
    }

    open spec fn step_of(m: LinearModel<T, V>, stream: Seq<V>) -> Result<
        (LinearModel<T, V>, Seq<V>),
        NumericError,
    > {
        match m.core.advanced() {
            Err(e) => Err(e),
            Ok(t) => match m.output_at(t) {
                Err(e) => Err(e),
                Ok(y) => Ok((LinearModel { core: m.core.committed(t, y), ..m }, seq![y])),
            },
        }
    }

    open spec fn with_output_start(m: LinearModel<T, V>, start: usize) -> LinearModel<T, V> {
        LinearModel { core: m.core.with_output_start(start), ..m }
    }

    open spec fn with_input(m: LinearModel<T, V>, input: usize) -> LinearModel<T, V> {
        LinearModel { core: m.core.with_input(input), ..m }
    }

    proof fn step_law(m: LinearModel<T, V>, stream: Seq<V>) {
        if let Ok((n, out)) = Self::step_of(m, stream) {
            m.core.advance_law(out[0]);
        }
    }

    proof fn placement_law(m: LinearModel<T, V>, start: usize) {
    }

    proof fn wiring_law(m: LinearModel<T, V>, input: usize) {
    }

    fn next_step(&mut self, stream: &mut Vec<V>) -> (r: Result<(), NumericError>) {
        let t = match self.core.advance() {
            Ok(t) => t,
            Err(e) => {
                return Err(e);
            },
        };
        let y = match self.output_at(t) {
            Ok(y) => y,
            Err(e) => {
                return Err(e);
            },
        };
        self.core.commit(t, y, stream);
        proof {
            assert(stream@ =~= write_region(
                old(stream)@,
                old(self).model().core.output_start as int,
                seq![y],
            ));
        }
        Ok(())
    }

    fn get_next_time(&self) -> (t: T) {
        self.core.next_time()
    }

    fn get_dim(&self) -> (d: usize) {
        1
    }

    fn get_output_start(&self) -> (s: usize) {
        self.core.output_start()
    }

    fn add_input(&mut self, input: usize) {
        self.core.add_input(input);
    }

    fn set_outputs(&mut self, output_start: usize) {
        self.core.set_outputs(output_start);
    }
}

impl<T: Time, V: Value> Source<T, V> for LinearSource<T, V> {
    /// The one output, whatever the port.
    open spec fn latest_output(m: LinearModel<T, V>, port: int) -> V {
        m.core.output
    }

    proof fn source_law(m: LinearModel<T, V>, stream: Seq<V>) {
    }

    fn get_output_ref(&self, port: usize) -> (y: &V) {
        self.core.output()
    }
}

impl<T: Time, V: Value> LinearModel<T, V> {
    /// A step that succeeds moves the clock by one step size and writes
    /// exactly `slope * time + offset`, for the time stepped to.
    pub proof fn step_is_exact(self, stream: Seq<V>)
        requires
            LinearSource::<T, V>::valid(self),
        ensures
            LinearSource::<T, V>::step_of(self, stream) matches Ok((n, out)) ==> {
                &&& n.core.time.as_int() == self.core.time.as_int() + self.core.step_size.as_int()
                &&& out.len() == 1
                &&& out[0].as_int() == self.slope.as_int() * n.core.time.as_int()
                    + self.offset.as_int()
                &&& n.core.output == out[0]
            },
    {
        if let Ok((n, out)) = LinearSource::<T, V>::step_of(self, stream) {
            self.core.advance_law(out[0]);
            value_of_represents::<V>(
                self.slope.as_int() * n.core.time.as_int() + self.offset.as_int(),
            );
        }
    }

    /// The first step of a ramp that starts at time zero writes
    /// `slope * step_size + offset`.
    pub proof fn first_step_from_zero(self, stream: Seq<V>)
        requires
            LinearSource::<T, V>::valid(self),
            self.core.time.as_int() == 0,
        ensures
            LinearSource::<T, V>::step_of(self, stream) matches Ok((n, out))
                ==> out[0].as_int() == self.slope.as_int() * self.core.step_size.as_int()
                + self.offset.as_int(),
    {
        self.step_is_exact(stream);
    }
}

/// The sum of `c[i] * t^i` over the first `n` coefficients.
pub open spec fn poly_sum<V: Value>(c: Seq<V>, t: int, n: nat) -> int
    decreases n,
{
    if n == 0 {
        0
    } else {
        poly_sum(c, t, (n - 1) as nat) + c[n - 1].as_int() * pow(t, (n - 1) as nat)
    }
}

/// Whether the first `n` terms can be summed within `V`: each power of `t`,
/// each term and each partial sum can be represented.
pub open spec fn poly_fits<V: Value>(c: Seq<V>, t: int, n: nat) -> bool
    decreases n,
{
    n == 0 || {
        &&& poly_fits(c, t, (n - 1) as nat)
        &&& V::representable(pow(t, (n - 1) as nat))
        &&& V::representable(c[n - 1].as_int() * pow(t, (n - 1) as nat))
        &&& V::representable(poly_sum(c, t, n))
    }
}

/// What can be summed up to `n` can be summed up to any `k` below.
pub proof fn poly_fits_prefix<V: Value>(c: Seq<V>, t: int, k: nat, n: nat)
    requires
        k <= n,
        poly_fits(c, t, n),
    ensures
        poly_fits(c, t, k),
    decreases n,
{
    if k < n {
        poly_fits_prefix(c, t, k, (n - 1) as nat);
    }
}

/// A polynomial generator as a mathematical value.
pub struct PolynomialModel<T, V> {
    pub coefficients: Seq<V>,
    pub core: CoreModel<T, V>,
}

impl<T: Time, V: Value> PolynomialModel<T, V> {
    /// The polynomial at `t`, where the time and every partial result can be
    /// represented in `V`.
    pub open spec fn output_at(self, t: T) -> Result<V, NumericError> {
        if !V::representable(t.as_int()) {
            Err(NumericError::CastFailure)
        } else if !poly_fits(self.coefficients, t.as_int(), self.coefficients.len()) {
            Err(NumericError::Overflow)
        } else {
            Ok(value_of::<V>(poly_sum(self.coefficients, t.as_int(), self.coefficients.len())))
        }
    }
}

/// A source whose output is the polynomial `coefficients[0] + coefficients[1]
/// * time + coefficients[2] * time^2 + ...`, whatever it is wired to.
pub struct Polynomial<T, V> {
    coefficients: Vec<V>,
    core: BlockCore<T, V>,
}

impl<T: Time, V: Value> Polynomial<T, V> {
    /// The identity ramp: coefficients zero and one, from time zero with the
    /// default step.
    pub fn new() -> (s: Self)
        ensures
            s.model() == (PolynomialModel {
                coefficients: seq![value_of::<V>(0), value_of::<V>(1)],
                core: CoreModel::initial(
                    value_of::<T>(0),
                    value_of::<T>(T::default_step()),
                    value_of::<V>(0),
                ),
            }),
            Self::valid(s.model()),
    {
        let zero = V::zero();
        let one = V::one();
        let mut coefficients: Vec<V> = Vec::new();
        coefficients.push(zero);
        coefficients.push(one);
        proof {
            value_of_as_int(zero);
            value_of_as_int(one);
            assert(coefficients@ =~= seq![value_of::<V>(0), value_of::<V>(1)]);
        }
        Polynomial { coefficients, core: BlockCore::with_default_step(zero) }
    }

    /// The initial output: the constant coefficient, or zero without one.
    pub open spec fn initial_output(coefficients: Seq<V>) -> V {
        if coefficients.len() > 0 {
            coefficients[0]
        } else {
            value_of::<V>(0)
        }
    }

    /// A generator with the given coefficients, lowest power first, that
    /// starts at `start_time` and steps by `step_size`. Refused with
    /// `Overflow` where the time of the first step cannot be represented.
    pub fn from(coefficients: Vec<V>, start_time: T, step_size: T) -> (r: Result<
        Self,
        NumericError,
    >)
        ensures
            match r {
                Ok(s) => s.model() == (PolynomialModel {
                    coefficients: coefficients@,
                    core: CoreModel::initial(
                        start_time,
                        step_size,
                        Self::initial_output(coefficients@),
                    ),
                }) && Self::valid(s.model()),
                Err(e) => e == NumericError::Overflow && !T::representable(
                    start_time.as_int() + step_size.as_int(),
                ),
            },
    {
        let initial = if coefficients.len() > 0 {
            coefficients[0]
        } else {
            let zero = V::zero();
            proof {
                value_of_as_int(zero);
            }
            zero
        };
        match BlockCore::new(start_time, step_size, initial) {
            Ok(core) => Ok(Polynomial { coefficients, core }),
            Err(e) => Err(e),
        }
    }

    /// The outputs so far, each with the time it was computed for; the first
    /// entry is the initial output.
    pub fn get_output_history(&self) -> (h: &Vec<(T, V)>)
        ensures
            h@ == self.model().core.history,
    {
        self.core.output_history()
    }

    fn output_at(&self, t: T) -> (r: Result<V, NumericError>)
        ensures
            r == self.model().output_at(t),
    {
        let tv: V = match cast::<T, V>(t) {
            Ok(v) => v,
            Err(e) => {
                return Err(e);
            },
        };
        let n = self.coefficients.len();
        let ghost c = self.coefficients@;
        let mut acc = V::zero();
        let mut i: usize = 0;
        while i < n
            invariant
                i <= n,
                n == c.len(),
                c == self.coefficients@,
                tv.as_int() == t.as_int(),
                V::representable(t.as_int()),
                poly_fits(c, t.as_int(), i as nat),
                acc.as_int() == poly_sum(c, t.as_int(), i as nat),
            decreases n - i,
        {
            proof {
                if poly_fits(c, t.as_int(), n as nat) {
                    poly_fits_prefix(c, t.as_int(), (i + 1) as nat, n as nat);
                }
                assert(poly_fits(c, t.as_int(), (i + 1) as nat) <==> {
                    &&& poly_fits(c, t.as_int(), i as nat)
                    &&& V::representable(pow(t.as_int(), i as nat))
                    &&& V::representable(c[i as int].as_int() * pow(t.as_int(), i as nat))
                    &&& V::representable(poly_sum(c, t.as_int(), (i + 1) as nat))
                });
                assert(poly_sum(c, t.as_int(), (i + 1) as nat) == poly_sum(c, t.as_int(), i as nat)
                    + c[i as int].as_int() * pow(t.as_int(), i as nat));
            }
            let p = match tv.pow_checked(i) {
                Some(p) => p,
                None => {
                    return Err(NumericError::Overflow);
                },
            };
            let term = match self.coefficients[i].mul_checked(p) {
                Some(x) => x,
                None => {
                    return Err(NumericError::Overflow);
                },
            };
            acc = match acc.add_checked(term) {
                Some(x) => x,
                None => {
                    return Err(NumericError::Overflow);
                },
            };
            i += 1;
        }
        proof {
            value_of_as_int(acc);
        }
        Ok(acc)
    }
}

impl<T: Time, V: Value> SimSystem<T, V> for Polynomial<T, V> {
    type Model = PolynomialModel<T, V>;

    closed spec fn model(&self) -> PolynomialModel<T, V> {
        PolynomialModel { coefficients: self.coefficients@, core: self.core.model() }
    }

    open spec fn valid(m: PolynomialModel<T, V>) -> bool {
        m.core.valid()
    }

    open spec fn next_time_of(m: PolynomialModel<T, V>) -> T {
        m.core.next_time()
    }

    open spec fn dim_of(m: PolynomialModel<T, V>) -> nat {
        1
    }

    open spec fn output_start_of(m: PolynomialModel<T, V>) -> nat {
        m.core.output_start as nat
    }

    open spec fn inputs_of(m: PolynomialModel<T, V>) -> Seq<usize> {
        m.core.inputs
    }

    open spec fn step_of(m: PolynomialModel<T, V>, stream: Seq<V>) -> Result<
        (PolynomialModel<T, V>, Seq<V>),
        NumericError,
    > {
        match m.core.advanced() {
            Err(e) => Err(e),
            Ok(t) => match m.output_at(t) {
                Err(e) => Err(e),
                Ok(y) => Ok((PolynomialModel { core: m.core.committed(t, y), ..m }, seq![y])),
            },
        }
    }

    open spec fn with_output_start(m: PolynomialModel<T, V>, start: usize) -> PolynomialModel<
        T,
        V,
    > {
        PolynomialModel { core: m.core.with_output_start(start), ..m }
    }

    open spec fn with_input(m: PolynomialModel<T, V>, input: usize) -> PolynomialModel<T, V> {
        PolynomialModel { core: m.core.with_input(input), ..m }
    }

    proof fn step_law(m: PolynomialModel<T, V>, stream: Seq<V>) {
        if let Ok((n, out)) = Self::step_of(m, stream) {
            m.core.advance_law(out[0]);
        }
    }

    proof fn placement_law(m: PolynomialModel<T, V>, start: usize) {
    }

    proof fn wiring_law(m: PolynomialModel<T, V>, input: usize) {
    }

    fn next_step(&mut self, stream: &mut Vec<V>) -> (r: Result<(), NumericError>) {
        let t = match self.core.advance() {
            Ok(t) => t,
            Err(e) => {
                return Err(e);
            },
        };
        let y = match self.output_at(t) {
            Ok(y) => y,
            Err(e) => {
                return Err(e);
            },
        };
        self.core.commit(t, y, stream);
        proof {
            assert(stream@ =~= write_region(
                old(stream)@,
                old(self).model().core.output_start as int,
                seq![y],
            ));
        }
        Ok(())
    }

    fn get_next_time(&self) -> (t: T) {
        self.core.next_time()
    }

    fn get_dim(&self) -> (d: usize) {
        1
    }

    fn get_output_start(&self) -> (s: usize) {
        self.core.output_start()
    }

    fn add_input(&mut self, input: usize) {
        self.core.add_input(input);
    }

    fn set_outputs(&mut self, output_start: usize) {
        self.core.set_outputs(output_start);
    }
}

impl<T: Time, V: Value> Source<T, V> for Polynomial<T, V> {
    /// The one output, whatever the port.
    open spec fn latest_output(m: PolynomialModel<T, V>, port: int) -> V {
        m.core.output
    }

    proof fn source_law(m: PolynomialModel<T, V>, stream: Seq<V>) {
    }

    fn get_output_ref(&self, port: usize) -> (y: &V) {
        self.core.output()
    }
}

/// A polynomial of two coefficients is `c0 + c1 * t`.
pub proof fn poly_sum_of_two<V: Value>(c: Seq<V>, t: int)
    requires
        c.len() == 2,
    ensures
        poly_sum(c, t, 2) == c[0].as_int() + c[1].as_int() * t,
{
    reveal_with_fuel(poly_sum, 3);
    vstd::arithmetic::power::lemma_pow0(t);
    vstd::arithmetic::power::lemma_pow1(t);
    assert(c[0].as_int() * 1 == c[0].as_int());
}

impl<T: Time, V: Value> PolynomialModel<T, V> {
    /// A step that succeeds moves the clock by one step size and writes
    /// exactly the polynomial's value at the time stepped to.
    pub proof fn step_is_exact(self, stream: Seq<V>)
        requires
            Polynomial::<T, V>::valid(self),
        ensures
            Polynomial::<T, V>::step_of(self, stream) matches Ok((n, out)) ==> {
                &&& n.core.time.as_int() == self.core.time.as_int() + self.core.step_size.as_int()
                &&& out.len() == 1
                &&& out[0].as_int() == poly_sum(
                    self.coefficients,
                    n.core.time.as_int(),
                    self.coefficients.len(),
                )
                &&& n.core.output == out[0]
            },
    {
        if let Ok((n, out)) = Polynomial::<T, V>::step_of(self, stream) {
            self.core.advance_law(out[0]);
            let t = n.core.time.as_int();
            let k = self.coefficients.len();
            if k > 0 {
                assert(V::representable(poly_sum(self.coefficients, t, k)));
            } else {
                V::value_laws(out[0], out[0]);
            }
            value_of_represents::<V>(poly_sum(self.coefficients, t, k));
        }
    }
}

} // verus!
