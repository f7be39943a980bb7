use vstd::prelude::*;
use crate::errors::{NumericError, RunError, WiringError};
use crate::numeric::{value_of, value_of_represents, Time, Value};

verus! {

/// The stream `stream` with the slots from `start` on replaced by `out`.
pub open spec fn write_region<V>(stream: Seq<V>, start: int, out: Seq<V>) -> Seq<V> {
    Seq::new(
        stream.len(),
        |p: int|
            if start <= p < start + out.len() {
                out[p - start]
            } else {
                stream[p]
            },
    )
}

/// Whether every offset of `inputs` is a slot of a stream of `len` values.
pub open spec fn all_below(inputs: Seq<usize>, len: nat) -> bool {
    forall|k: int| 0 <= k < inputs.len() ==> inputs[k] < len
}

/// A block of the diagram: a unit with an output region of fixed width in the
/// shared stream, a clock of its own, and a list of stream offsets it reads.
///
/// A block is described by its `Model`. Every operation is a function on
/// models, so that what a graph of blocks does is a function of where it
/// started.
pub trait SimSystem<T: Time, V: Value>: Sized {
    /// The block as a mathematical value.
    type Model;

    /// The value that describes this block.
    spec fn model(&self) -> Self::Model;

    /// The block's own invariant.
    spec fn valid(m: Self::Model) -> bool;

    /// The time at which the next step is due.
    spec fn next_time_of(m: Self::Model) -> T;

    /// The width of the output region.
    spec fn dim_of(m: Self::Model) -> nat;

    /// The first slot of the output region.
    spec fn output_start_of(m: Self::Model) -> nat;

    /// The stream offsets the block reads, in the order they were wired.
    spec fn inputs_of(m: Self::Model) -> Seq<usize>;

    /// One step against `stream`: the block afterwards and the values for its
    /// output region, or the reason no value could be computed.
    spec fn step_of(m: Self::Model, stream: Seq<V>) -> Result<(Self::Model, Seq<V>), NumericError>;

    /// The block with its output region moved to `start`.
    spec fn with_output_start(m: Self::Model, start: usize) -> Self::Model;

    /// The block with one more input, read at `input`.
    spec fn with_input(m: Self::Model, input: usize) -> Self::Model;

    /// A step keeps the block valid, its region and its wiring, fills the
    /// whole region, and never moves the next step back in time.
    proof fn step_law(m: Self::Model, stream: Seq<V>)
        requires
            Self::valid(m),
            Self::output_start_of(m) + Self::dim_of(m) <= stream.len(),
            all_below(Self::inputs_of(m), stream.len()),
        ensures
            Self::step_of(m, stream) matches Ok((n, out)) ==> {
                &&& Self::valid(n)
                &&& Self::dim_of(n) == Self::dim_of(m)
                &&& Self::output_start_of(n) == Self::output_start_of(m)
                &&& Self::inputs_of(n) == Self::inputs_of(m)
                &&& out.len() == Self::dim_of(m)
                &&& Self::next_time_of(n).as_int() >= Self::next_time_of(m).as_int()
            },
    ;

    /// Placing a block changes where it writes and nothing else the graph reads.
    proof fn placement_law(m: Self::Model, start: usize)
        requires
            Self::valid(m),
        ensures
            Self::valid(Self::with_output_start(m, start)),
            Self::output_start_of(Self::with_output_start(m, start)) == start,
            Self::dim_of(Self::with_output_start(m, start)) == Self::dim_of(m),
            Self::inputs_of(Self::with_output_start(m, start)) == Self::inputs_of(m),
            Self::next_time_of(Self::with_output_start(m, start)) == Self::next_time_of(m),
    ;

    /// Wiring appends to the inputs and changes nothing else the graph reads.
    proof fn wiring_law(m: Self::Model, input: usize)
        requires
            Self::valid(m),
        ensures
            Self::valid(Self::with_input(m, input)),
            Self::inputs_of(Self::with_input(m, input)) == Self::inputs_of(m).push(input),
            Self::dim_of(Self::with_input(m, input)) == Self::dim_of(m),
            Self::output_start_of(Self::with_input(m, input)) == Self::output_start_of(m),
            Self::next_time_of(Self::with_input(m, input)) == Self::next_time_of(m),
    ;

    /// Computes the next output values from the block's state and the stream
    /// slots it is wired to, writes them on its own region and advances its
    /// clock. On an error neither the block nor the stream changes.
    fn next_step(&mut self, stream: &mut Vec<V>) -> (r: Result<(), NumericError>)
        requires
            Self::valid(old(self).model()),
            Self::output_start_of(old(self).model()) + Self::dim_of(old(self).model()) <= old(
                stream,
            ).len(),
            all_below(Self::inputs_of(old(self).model()), old(stream)@.len()),
        ensures
            match Self::step_of(old(self).model(), old(stream)@) {
                Ok((n, out)) => {
                    &&& r is Ok
                    &&& final(self).model() == n
                    &&& final(stream)@ == write_region(
                        old(stream)@,
                        Self::output_start_of(old(self).model()) as int,
                        out,
                    )
                },
                Err(e) => {
                    &&& r == Err::<(), NumericError>(e)
                    &&& final(self).model() == old(self).model()
                    &&& final(stream)@ == old(stream)@
                },
            },
    ;

    /// The time at which the next step is due. Asking changes nothing.
    fn get_next_time(&self) -> (t: T)
        requires
            Self::valid(self.model()),
        ensures
            t == Self::next_time_of(self.model()),
    ;

    /// The width of the output region.
    fn get_dim(&self) -> (d: usize)
        ensures
            d == Self::dim_of(self.model()),
    ;

    /// The first slot of the output region.
    fn get_output_start(&self) -> (s: usize)
        ensures
            s == Self::output_start_of(self.model()),
    ;

    /// Appends the stream offset `input` to the inputs.
    fn add_input(&mut self, input: usize)
        requires
            Self::valid(old(self).model()),
        ensures
            final(self).model() == Self::with_input(old(self).model(), input),
    ;

    /// Places the output region at `output_start`.
    fn set_outputs(&mut self, output_start: usize)
        requires
            Self::valid(old(self).model()),
        ensures
            final(self).model() == Self::with_output_start(old(self).model(), output_start),
    ;
}

/// A block that keeps its latest output, so that it can be read from the
/// block itself as well as from the stream.
pub trait Source<T: Time, V: Value>: SimSystem<T, V> {
    /// The latest value of output `port`.
    spec fn latest_output(m: Self::Model, port: int) -> V;

    /// After a step the latest outputs are the values the step wrote.
    proof fn source_law(m: Self::Model, stream: Seq<V>)
        requires
            Self::valid(m),
            Self::output_start_of(m) + Self::dim_of(m) <= stream.len(),
            all_below(Self::inputs_of(m), stream.len()),
        ensures
            Self::step_of(m, stream) matches Ok((n, out)) ==> forall|p: int|
                0 <= p < out.len() ==> Self::latest_output(n, p) == #[trigger] out[p],
    ;

    /// The latest value of output `port`.
    fn get_output_ref(&self, port: usize) -> (y: &V)
        ensures
            *y == Self::latest_output(self.model(), port as int),
    ;
}

/// A block whose input ports can be wired one by one.
pub trait Sink<T: Time, V: Value>: SimSystem<T, V> {
    /// Whether the block has an input port `port`.
    spec fn has_port(m: Self::Model, port: usize) -> bool;

    /// The block with input port `port` reading the stream at `input`.
    spec fn with_port(m: Self::Model, input: usize, port: usize) -> Self::Model;

    /// Wiring a port changes what the block reads and nothing else the graph
    /// reads: afterwards the block reads `input`, and besides it only
    /// offsets it read before.
    proof fn port_law(m: Self::Model, input: usize, port: usize)
        requires
            Self::valid(m),
            Self::has_port(m, port),
        ensures
            Self::valid(Self::with_port(m, input, port)),
            Self::inputs_of(Self::with_port(m, input, port)).contains(input),
            forall|k: int|
                0 <= k < Self::inputs_of(Self::with_port(m, input, port)).len() ==> {
                    let x = #[trigger] Self::inputs_of(Self::with_port(m, input, port))[k];
                    x == input || Self::inputs_of(m).contains(x)
                },
            Self::dim_of(Self::with_port(m, input, port)) == Self::dim_of(m),
            Self::output_start_of(Self::with_port(m, input, port)) == Self::output_start_of(m),
            Self::next_time_of(Self::with_port(m, input, port)) == Self::next_time_of(m),
    ;

    /// Wires input port `port` to read the stream at `input`. The block must
    /// have that port.
    fn set_input(&mut self, input: usize, port: usize)
        requires
            Self::valid(old(self).model()),
            Self::has_port(old(self).model(), port),
        ensures
            final(self).model() == Self::with_port(old(self).model(), input, port),
    ;
}

/// A diagram as a mathematical value: the blocks in the order they were
/// registered, the stream buffer, the global clock, and whether any block has
/// been stepped.
pub struct Graph<T: Time, V: Value, B: SimSystem<T, V>> {
    pub blocks: Seq<B::Model>,
    pub stream: Seq<V>,
    pub time: T,
    pub started: bool,
}

impl<T: Time, V: Value, B: SimSystem<T, V>> Graph<T, V, B> {
    /// The summed output widths of the first `n` blocks.
    pub open spec fn offset_of(self, n: nat) -> nat
        decreases n,
    {
        if n == 0 {
            0
        } else {
            self.offset_of((n - 1) as nat) + B::dim_of(self.blocks[n - 1])
        }
    }

    /// The time at which block `i` is next due, as an integer.
    pub open spec fn due(self, i: int) -> int {
        B::next_time_of(self.blocks[i]).as_int()
    }

    /// Every block is valid, the output regions tile the stream in
    /// registration order (each starts where the summed widths of the blocks
    /// before it end, and the stream ends with the last), and the stream is
    /// no longer than an offset can address.
    pub open spec fn tiled(self) -> bool {
        &&& self.stream.len() <= usize::MAX
        &&& forall|i: int| 0 <= i < self.blocks.len() ==> B::valid(#[trigger] self.blocks[i])
        &&& forall|i: int|
            0 <= i < self.blocks.len() ==> B::output_start_of(#[trigger] self.blocks[i])
                == self.offset_of(i as nat)
        &&& self.stream.len() == self.offset_of(self.blocks.len())
    }

    /// The regions tile the stream, every input is a slot of the stream, and
    /// no block is due before the clock.
    pub open spec fn wf(self) -> bool {
        &&& self.tiled()
        &&& forall|i: int|
            0 <= i < self.blocks.len() ==> all_below(
                B::inputs_of(#[trigger] self.blocks[i]),
                self.stream.len(),
            )
        &&& forall|i: int|
            0 <= i < self.blocks.len() ==> self.time.as_int() <= #[trigger] self.due(i)
    }

    /// Among the first `n` blocks, the one that is due first; of several due
    /// at the same time, the one registered first.
    pub open spec fn earliest_among(self, n: nat) -> int
        decreases n,
    {
        if n <= 1 {
            0
        } else {
            let e = self.earliest_among((n - 1) as nat);
            if self.due(n - 1) < self.due(e) {
                n - 1
            } else {
                e
            }
        }
    }

    /// The block the scheduler steps next.
    pub open spec fn earliest(self) -> int {
        self.earliest_among(self.blocks.len())
    }

    /// One tick: the clock moves to the time of the earliest block, and that
    /// block alone is stepped.
    pub open spec fn tick(self) -> Result<Self, NumericError> {
        let i = self.earliest();
        match B::step_of(self.blocks[i], self.stream) {
            Ok((m, out)) => Ok(
                Graph {
                    blocks: self.blocks.update(i, m),
                    stream: write_region(
                        self.stream,
                        B::output_start_of(self.blocks[i]) as int,
                        out,
                    ),
                    time: B::next_time_of(self.blocks[i]),
                    started: true,
                },
            ),
            Err(e) => Err(e),
        }
    }

    /// Ticks for as long as a block is due at or before `stop`, `fuel` times
    /// at most. Gives the graph reached and how the run ended: `Ok` when no
    /// block is due any more (or there is none), the step error of the block
    /// that failed, or `StepLimit` when a block is still due after `fuel`
    /// ticks. A failed tick changes nothing.
    pub open spec fn run(self, stop: T, fuel: nat) -> (Self, Result<(), RunError>)
        decreases fuel,
    {
        if self.blocks.len() == 0 || stop.as_int() < self.due(self.earliest()) {
            (self, Ok(()))
        } else if fuel == 0 {
            (self, Err(RunError::StepLimit))
        } else {
            match self.tick() {
                Ok(g) => g.run(stop, (fuel - 1) as nat),
                Err(e) => (self, Err(RunError::Step { block: self.earliest() as usize, error: e })),
            }
        }
    }

    /// The graph after `connect(a, k, b)`, or why the connection is refused.
    pub open spec fn connected(self, a: int, k: int, b: int) -> Result<Self, WiringError> {
        if !(0 <= a < self.blocks.len()) {
            Err(WiringError::UnknownBlock)
        } else if !(0 <= k < B::dim_of(self.blocks[a])) {
            Err(WiringError::OutOfRange)
        } else if !(0 <= b < self.blocks.len()) {
            Err(WiringError::UnknownBlock)
        } else if self.started {
            Err(WiringError::SimulationStarted)
        } else {
            Ok(
                Graph {
                    blocks: self.blocks.update(
                        b,
                        B::with_input(
                            self.blocks[b],
                            (B::output_start_of(self.blocks[a]) + k) as usize,
                        ),
                    ),
                    ..self
                },
            )
        }
    }
}

impl<T: Time, V: Value, B: SimSystem<T, V>> Graph<T, V, B> {
    /// The graph after registering a block: the block is placed at the end of
    /// the stream, and the stream grows by the block's width in zeros.
    pub open spec fn registered(self, m: B::Model) -> Self {
        Graph {
            blocks: self.blocks.push(B::with_output_start(m, self.stream.len() as usize)),
            stream: self.stream + Seq::new(B::dim_of(m), |p: int| value_of::<V>(0)),
            ..self
        }
    }

    /// Whether a block can be given a region: it is valid, and the stream
    /// can grow by its width.
    pub open spec fn has_room_for(self, m: B::Model) -> bool {
        &&& B::valid(m)
        &&& self.stream.len() + B::dim_of(m) <= usize::MAX
    }

    /// Whether a block can take part in a run once registered: there is room
    /// for it, what it reads lies in the stream as it will be, and it is not
    /// due before the clock.
    pub open spec fn admits(self, m: B::Model) -> bool {
        &&& self.has_room_for(m)
        &&& all_below(B::inputs_of(m), self.stream.len() + B::dim_of(m))
        &&& self.time.as_int() <= B::next_time_of(m).as_int()
    }

    /// The output region of block `i`, as a piece of the stream.
    pub open spec fn outputs_of(self, i: int) -> Seq<V> {
        self.stream.subrange(
            B::output_start_of(self.blocks[i]) as int,
            (B::output_start_of(self.blocks[i]) + B::dim_of(self.blocks[i])) as int,
        )
    }

    /// Graphs whose first `n` blocks have the same widths place block `n` at
    /// the same offset.
    pub proof fn offsets_agree(self, other: Self, n: nat)
        requires
            n <= self.blocks.len(),
            n <= other.blocks.len(),
            forall|i: int| 0 <= i < n ==> B::dim_of(self.blocks[i]) == B::dim_of(other.blocks[i]),
        ensures
            self.offset_of(n) == other.offset_of(n),
        decreases n,
    {
        if n > 0 {
            self.offsets_agree(other, (n - 1) as nat);
        }
    }

    /// Offsets grow with the registration index.
    pub proof fn offsets_ordered(self, i: nat, j: nat)
        requires
            i <= j,
        ensures
            self.offset_of(i) <= self.offset_of(j),
        decreases j,
    {
        if i < j {
            self.offsets_ordered(i, (j - 1) as nat);
        }
    }

    /// The scheduler's choice among the first `n` blocks is due no later than
    /// any of them, and strictly before each one registered ahead of it.
    pub proof fn earliest_is_first_minimum(self, n: nat)
        requires
            1 <= n,
        ensures
            0 <= self.earliest_among(n) < n,
            forall|j: int|
                0 <= j < n ==> self.due(self.earliest_among(n)) <= #[trigger] self.due(j),
            forall|j: int|
                0 <= j < self.earliest_among(n) ==> self.due(self.earliest_among(n))
                    < #[trigger] self.due(j),
        decreases n,
    {
        if n > 1 {
            self.earliest_is_first_minimum((n - 1) as nat);
        }
    }

    /// A tick keeps a well-formed graph well-formed, keeps the number of
    /// blocks and the length of the stream, and does not move the clock back.
    pub proof fn tick_preserves_wf(self)
        requires
            self.wf(),
            self.blocks.len() > 0,
        ensures
            self.tick() matches Ok(g) ==> {
                &&& g.wf()
                &&& g.blocks.len() == self.blocks.len()
                &&& g.stream.len() == self.stream.len()
                &&& self.time.as_int() <= g.time.as_int()
            },
    {
        let i = self.earliest();
        self.earliest_is_first_minimum(self.blocks.len());
        self.offsets_ordered((i + 1) as nat, self.blocks.len());
        B::step_law(self.blocks[i], self.stream);
        if let Ok(g) = self.tick() {
            assert forall|j: int| 0 <= j < g.blocks.len() implies B::output_start_of(
                #[trigger] g.blocks[j],
            ) == g.offset_of(j as nat) by {
                self.offsets_agree(g, j as nat);
            }
            self.offsets_agree(g, self.blocks.len());
            assert forall|j: int| 0 <= j < g.blocks.len() implies g.time.as_int()
                <= #[trigger] g.due(j) by {
                assert(self.due(i) <= self.due(j));
            }
        }
    }

    /// Registering any valid block for which the stream has room keeps the
    /// regions tiling the stream: the blocks that were there stay as they
    /// were, the new block's region starts where the stream ended, and the
    /// stream grows by exactly the new block's width, in zeros, its old part
    /// unchanged.
    pub proof fn registration_keeps_tiling(self, m: B::Model)
        requires
            self.tiled(),
            self.has_room_for(m),
        ensures
            self.registered(m).tiled(),
            self.registered(m).blocks.len() == self.blocks.len() + 1,
            forall|i: int|
                0 <= i < self.blocks.len() ==> #[trigger] self.registered(m).blocks[i]
                    == self.blocks[i],
            B::output_start_of(self.registered(m).blocks[self.blocks.len() as int])
                == self.stream.len(),
            B::dim_of(self.registered(m).blocks[self.blocks.len() as int]) == B::dim_of(m),
            self.registered(m).stream.len() == self.stream.len() + B::dim_of(m),
            forall|p: int|
                0 <= p < self.stream.len() ==> #[trigger] self.registered(m).stream[p]
                    == self.stream[p],
            forall|p: int|
                self.stream.len() <= p < self.stream.len() + B::dim_of(m) ==> (
                #[trigger] self.registered(m).stream[p]).as_int() == 0,
    {
        let g = self.registered(m);
        let n = self.blocks.len();
        B::placement_law(m, self.stream.len() as usize);
        V::value_laws(value_of::<V>(0), value_of::<V>(0));
        value_of_represents::<V>(0);
        assert forall|j: int| 0 <= j < g.blocks.len() implies B::output_start_of(
            #[trigger] g.blocks[j],
        ) == g.offset_of(j as nat) by {
            self.offsets_agree(g, j as nat);
        }
        self.offsets_agree(g, n);
        assert(g.offset_of((n + 1) as nat) == g.offset_of(n) + B::dim_of(g.blocks[n as int]));
    }

    /// Registering a block that the graph admits keeps the graph well-formed.
    pub proof fn registration_keeps_wf(self, m: B::Model)
        requires
            self.wf(),
            self.admits(m),
        ensures
            self.registered(m).wf(),
    {
        let g = self.registered(m);
        let n = self.blocks.len();
        self.registration_keeps_tiling(m);
        B::placement_law(m, self.stream.len() as usize);
        assert forall|j: int| 0 <= j < g.blocks.len() implies g.time.as_int()
            <= #[trigger] g.due(j) by {
            if j < n {
                assert(self.time.as_int() <= self.due(j));
            }
        }
        assert forall|j: int| 0 <= j < g.blocks.len() implies all_below(
            B::inputs_of(#[trigger] g.blocks[j]),
            g.stream.len(),
        ) by {
            if j < n {
                assert(all_below(B::inputs_of(self.blocks[j]), self.stream.len()));
            }
        }
    }

    /// An accepted connection keeps the graph well-formed.
    pub proof fn connection_keeps_wf(self, a: int, k: int, b: int)
        requires
            self.wf(),
        ensures
            self.connected(a, k, b) matches Ok(g) ==> g.wf(),
    {
        if let Ok(g) = self.connected(a, k, b) {
            let input = (B::output_start_of(self.blocks[a]) + k) as usize;
            assert(B::valid(self.blocks[b]));
            B::wiring_law(self.blocks[b], input);
            assert(B::output_start_of(self.blocks[a]) == self.offset_of(a as nat));
            self.offsets_ordered((a + 1) as nat, self.blocks.len());
            assert(self.offset_of((a + 1) as nat) == self.offset_of(a as nat) + B::dim_of(
                self.blocks[a],
            ));
            assert forall|j: int| 0 <= j < g.blocks.len() implies B::output_start_of(
                #[trigger] g.blocks[j],
            ) == g.offset_of(j as nat) by {
                assert(B::output_start_of(self.blocks[j]) == self.offset_of(j as nat));
                self.offsets_agree(g, j as nat);
            }
            self.offsets_agree(g, self.blocks.len());
            assert forall|j: int| 0 <= j < g.blocks.len() implies g.time.as_int()
                <= #[trigger] g.due(j) by {
                assert(self.time.as_int() <= self.due(j));
            }
            assert forall|j: int| 0 <= j < g.blocks.len() implies all_below(
                B::inputs_of(#[trigger] g.blocks[j]),
                g.stream.len(),
            ) by {
                assert(all_below(B::inputs_of(self.blocks[j]), self.stream.len()));
            }
        }
    }
}

/// The owner of a diagram: its blocks, the stream buffer through which they
/// see each other's outputs, and the global clock.
pub struct MainSystem<T: Time, V: Value, B: SimSystem<T, V>> {
    subsystems: Vec<B>,
    stream: Vec<V>,
    time: T,
    started: bool,
}

impl<T: Time, V: Value, B: SimSystem<T, V>> View for MainSystem<T, V, B> {
    type V = Graph<T, V, B>;

    closed spec fn view(&self) -> Graph<T, V, B> {
        Graph {
            blocks: Seq::new(self.subsystems@.len(), |i: int| self.subsystems@[i].model()),
            stream: self.stream@,
            time: self.time,
            started: self.started,
        }
    }
}

impl<T: Time, V: Value, B: SimSystem<T, V>> MainSystem<T, V, B> {
    /// An empty diagram with the clock at zero.
    pub fn new() -> (s: Self)
        ensures
            s@.wf(),
            s@.blocks.len() == 0,
            s@.stream.len() == 0,
            s@.time.as_int() == 0,
            !s@.started,
    {
        Self { subsystems: Vec::new(), stream: Vec::new(), time: T::zero(), started: false }
    }

    /// Registers a block: gives it the next free region of the stream, which
    /// grows by the block's width in zeros, and returns the block's index.
    /// Any valid block can be registered. The diagram stays fit to run where
    /// the block, besides, reads only slots of the stream and is not due
    /// before the clock, as every block is that has just been made.
    pub fn add_subsystem(&mut self, subsystem: B) -> (index: usize)
        requires
            old(self)@.tiled(),
            old(self)@.has_room_for(subsystem.model()),
        ensures
            final(self)@ == old(self)@.registered(subsystem.model()),
            final(self)@.tiled(),
            old(self)@.wf() && old(self)@.admits(subsystem.model()) ==> final(self)@.wf(),
            index == old(self)@.blocks.len(),
    {
        let ghost g0 = self@;
        let ghost m0 = subsystem.model();
        let mut subsystem = subsystem;
        let start = self.stream.len();
        subsystem.set_outputs(start);
        let dim = subsystem.get_dim();
        let zero = V::zero();
        proof {
            B::placement_law(m0, start);
            V::value_laws(zero, value_of::<V>(0));
        }
        let mut i: usize = 0;
        while i < dim
            invariant
                i <= dim,
                start + dim <= usize::MAX,
                zero == value_of::<V>(0),
                self.stream@ == g0.stream + Seq::new(i as nat, |p: int| value_of::<V>(0)),
                self.subsystems == old(self).subsystems,
                self.time == old(self).time,
                self.started == old(self).started,
                start == g0.stream.len(),
            decreases dim - i,
        {
            self.stream.push(zero);
            i += 1;
        }
        self.subsystems.push(subsystem);
        proof {
            let g1 = self@;
            let g2 = g0.registered(m0);
            assert(g1.blocks =~= g2.blocks);
            assert(g1.stream =~= g2.stream);
            assert(g1 == g2);
            g0.registration_keeps_tiling(m0);
            if g0.wf() && g0.admits(m0) {
                g0.registration_keeps_wf(m0);
            }
        }
        self.subsystems.len() - 1
    }

    /// Connects output slot `out_a` of block `subsys_a` to block `subsys_b`:
    /// the consumer gets the slot's absolute offset as one more input. A
    /// refused connection leaves the diagram as it was.
    pub fn connect(&mut self, subsys_a: usize, out_a: usize, subsys_b: usize) -> (r: Result<
        (),
        WiringError,
    >)
        requires
            old(self)@.wf(),
        ensures
            match old(self)@.connected(subsys_a as int, out_a as int, subsys_b as int) {
                Ok(g) => r is Ok && final(self)@ == g,
                Err(e) => r == Err::<(), WiringError>(e) && final(self)@ == old(self)@,
            },
            final(self)@.wf(),
    {
        let ghost g0 = self@;
        let n = self.subsystems.len();
        if subsys_a >= n {
            return Err(WiringError::UnknownBlock);
        }
        let dim = self.subsystems[subsys_a].get_dim();
        if out_a >= dim {
            return Err(WiringError::OutOfRange);
        }
        if subsys_b >= n {
            return Err(WiringError::UnknownBlock);
        }
        if self.started {
            return Err(WiringError::SimulationStarted);
        }
        proof {
            assert(B::output_start_of(g0.blocks[subsys_a as int]) == g0.offset_of(subsys_a as nat));
            g0.offsets_ordered((subsys_a + 1) as nat, g0.blocks.len());
            assert(g0.offset_of((subsys_a + 1) as nat) == g0.offset_of(subsys_a as nat) + B::dim_of(
                g0.blocks[subsys_a as int],
            ));
            assert(B::valid(g0.blocks[subsys_b as int]));
            assert(g0.stream.len() == self.stream.len());
        }
        let output = self.subsystems[subsys_a].get_output_start() + out_a;
        self.subsystems[subsys_b].add_input(output);
        proof {
            let g1 = self@;
            let g2 = g0.connected(subsys_a as int, out_a as int, subsys_b as int)->Ok_0;
            assert(g1.blocks =~= g2.blocks);
            assert(g1 == g2);
            g0.connection_keeps_wf(subsys_a as int, out_a as int, subsys_b as int);
        }
        Ok(())
    }

    /// Runs until no block is due at or before `stop_time`; a block due
    /// exactly at `stop_time` is still stepped. Each tick steps the block
    /// that is due first (of several, the one registered first) and sets the
    /// clock to its time. Gives the clock reached, or the reason the run
    /// stopped early; the diagram then stands as the last good tick left it.
    /// With no block registered nothing happens and the clock is returned.
    ///
    /// A block that never advances would keep the run going for ever, so the
    /// run gives up with `StepLimit` after `usize::MAX` ticks; `run_bounded`
    /// takes a smaller budget.
    pub fn run_simulation(&mut self, stop_time: T) -> (r: Result<T, RunError>)
        requires
            old(self)@.wf(),
        ensures
            final(self)@ == old(self)@.run(stop_time, usize::MAX as nat).0,
            r == match old(self)@.run(stop_time, usize::MAX as nat).1 {
                Ok(()) => Ok::<T, RunError>(final(self)@.time),
                Err(e) => Err::<T, RunError>(e),
            },
            final(self)@.wf(),
    {
        self.run_bounded(stop_time, usize::MAX)
    }

    /// `run_simulation` with a budget of `max_steps` ticks: where a block is
    /// still due when the budget is spent, the run stops with `StepLimit`.
    pub fn run_bounded(&mut self, stop_time: T, max_steps: usize) -> (r: Result<T, RunError>)
        requires
            old(self)@.wf(),
        ensures
            final(self)@ == old(self)@.run(stop_time, max_steps as nat).0,
            r == match old(self)@.run(stop_time, max_steps as nat).1 {
                Ok(()) => Ok::<T, RunError>(final(self)@.time),
                Err(e) => Err::<T, RunError>(e),
            },
            final(self)@.wf(),
    {
        let ghost g0 = self@;
        let n = self.subsystems.len();
        if n == 0 {
            return Ok(self.time);
        }
        let mut steps: usize = 0;
        loop
            invariant
                g0 == old(self)@,
                self@.wf(),
                n == self.subsystems.len(),
                n > 0,
                steps <= max_steps,
                g0.run(stop_time, max_steps as nat) == self@.run(
                    stop_time,
                    (max_steps - steps) as nat,
                ),
            decreases max_steps - steps,
        {
            let ghost g = self@;
            assert(B::valid(g.blocks[0]));
            let mut index: usize = 0;
            let mut min_time = self.subsystems[0].get_next_time();
            let mut i: usize = 1;
            while i < n
                invariant
                    1 <= i <= n,
                    n == self.subsystems.len(),
                    g == self@,
                    g.wf(),
                    index == g.earliest_among(i as nat),
                    index < i,
                    min_time == B::next_time_of(g.blocks[index as int]),
                decreases n - i,
            {
                assert(B::valid(g.blocks[i as int]));
                let t = self.subsystems[i].get_next_time();
                if t.precedes(min_time) {
                    index = i;
                    min_time = t;
                }
                i += 1;
            }
            if stop_time.precedes(min_time) {
                return Ok(self.time);
            }
            if steps == max_steps {
                return Err(RunError::StepLimit);
            }
            proof {
                assert(B::valid(g.blocks[index as int]));
                assert(B::output_start_of(g.blocks[index as int]) == g.offset_of(index as nat));
                g.offsets_ordered((index + 1) as nat, g.blocks.len());
                g.tick_preserves_wf();
            }
            match self.subsystems[index].next_step(&mut self.stream) {
                Ok(()) => {
                    self.time = min_time;
                    self.started = true;
                    steps += 1;
                    proof {
                        let h = g.tick()->Ok_0;
                        assert(self@.blocks =~= h.blocks);
                        assert(self@ == h);
                    }
                },
                Err(e) => {
                    assert(self@.blocks =~= g.blocks);
                    return Err(RunError::Step { block: index, error: e });
                },
            }
        }
    }

    /// The global clock: the time of the latest tick, or zero before the first.
    pub fn time(&self) -> (t: T)
        ensures
            t == self@.time,
    {
        self.time
    }

    /// The number of registered blocks.
    pub fn len(&self) -> (n: usize)
        ensures
            n == self@.blocks.len(),
    {
        self.subsystems.len()
    }

    /// Whether a block has been stepped, so that the wiring is frozen.
    pub fn has_started(&self) -> (b: bool)
        ensures
            b == self@.started,
    {
        self.started
    }

    /// The block registered under `subsys`.
    pub fn get_subsystem(&self, subsys: usize) -> (b: &B)
        requires
            subsys < self@.blocks.len(),
        ensures
            b.model() == self@.blocks[subsys as int],
    {
        &self.subsystems[subsys]
    }

    /// The current values of a block's output region.
    pub fn get_outputs(&self, subsys: usize) -> (outputs: Vec<V>)
        requires
            self@.tiled(),
            subsys < self@.blocks.len(),
        ensures
            outputs@ == self@.outputs_of(subsys as int),
    {
        let output_start = self.subsystems[subsys].get_output_start();
        let dim = self.subsystems[subsys].get_dim();
        proof {
            assert(B::output_start_of(self@.blocks[subsys as int]) == self@.offset_of(
                subsys as nat,
            ));
            self@.offsets_ordered((subsys + 1) as nat, self@.blocks.len());
        }
        let mut outputs: Vec<V> = Vec::new();
        let mut i: usize = 0;
        while i < dim
            invariant
                i <= dim,
                output_start + dim <= self.stream.len(),
                outputs@ == self.stream@.subrange(output_start as int, output_start + i),
            decreases dim - i,
        {
            outputs.push(self.stream[output_start + i]);
            proof {
                assert(outputs@ =~= self.stream@.subrange(
                    output_start as int,
                    output_start + i + 1,
                ));
            }
            i += 1;
        }
        outputs
    }
}

} // verus!
