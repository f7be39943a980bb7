use vstd::prelude::*;
use crate::base::{all_below, Graph, SimSystem, Source};
use crate::systems::block::{Block, BlockModel};
use crate::systems::operators::input_sum_of_two;
use crate::errors::{RunError, WiringError};
use crate::numeric::{Time, Value};

verus! {

impl<T: Time, V: Value, B: SimSystem<T, V>> Graph<T, V, B> {
    /// The first slot of block `i`'s output region.
    pub open spec fn region_start(self, i: int) -> int {
        B::output_start_of(self.blocks[i]) as int
    }

    /// The slot just behind block `i`'s output region.
    pub open spec fn region_end(self, i: int) -> int {
        (B::output_start_of(self.blocks[i]) + B::dim_of(self.blocks[i])) as int
    }

    /// Whether slot `p` lies in the output region of block `i`.
    pub open spec fn owns(self, i: int, p: int) -> bool {
        0 <= i < self.blocks.len() && self.region_start(i) <= p < self.region_end(i)
    }

    /// Whether slot `p` lies in the output region of some block.
    pub open spec fn has_owner(self, p: int) -> bool {
        exists|i: int| self.owns(i, p)
    }

    /// In a tiled graph the output regions lie in the stream in
    /// registration order without gap or overlap: the first starts at slot
    /// zero, each next one where the one before ends, and the last ends with
    /// the stream. So regions of different blocks are disjoint, and every
    /// slot of the stream belongs to one block.
    pub proof fn regions_tile_the_stream(self)
        requires
            self.tiled(),
        ensures
            self.blocks.len() == 0 ==> self.stream.len() == 0,
            self.blocks.len() > 0 ==> self.region_start(0) == 0,
            self.blocks.len() > 0 ==> self.region_end(self.blocks.len() - 1) == self.stream.len(),
            forall|i: int|
                0 <= i < self.blocks.len() - 1 ==> self.region_start(i + 1)
                    == #[trigger] self.region_end(i),
            forall|i: int, j: int|
                0 <= i < j < self.blocks.len() ==> #[trigger] self.region_end(i)
                    <= #[trigger] self.region_start(j),
            forall|p: int| 0 <= p < self.stream.len() ==> #[trigger] self.has_owner(p),
            forall|i: int, j: int, p: int|
                #[trigger] self.owns(i, p) && #[trigger] self.owns(j, p) ==> i == j,
    {
        let n = self.blocks.len();
        assert forall|i: int| 0 <= i < n implies self.region_start(i) == self.offset_of(i as nat)
            && #[trigger] self.region_end(i) == self.offset_of((i + 1) as nat) by {
            assert(B::output_start_of(self.blocks[i]) == self.offset_of(i as nat));
        }
        assert forall|i: int, j: int| 0 <= i < j < n implies #[trigger] self.region_end(i)
            <= #[trigger] self.region_start(j) by {
            self.offsets_ordered((i + 1) as nat, j as nat);
        }
        assert forall|p: int| 0 <= p < self.stream.len() implies #[trigger] self.has_owner(p) by {
            self.slot_has_owner(p, n);
        }
        assert forall|i: int, j: int, p: int| #[trigger]
            self.owns(i, p) && #[trigger] self.owns(j, p) implies i == j by {
            if i < j {
                assert(self.region_end(i) <= self.region_start(j));
            } else if j < i {
                assert(self.region_end(j) <= self.region_start(i));
            }
        }
    }

    /// Every slot below the offset of block `n` lies in the region of a
    /// block registered before `n`.
    proof fn slot_has_owner(self, p: int, n: nat)
        requires
            self.tiled(),
            n <= self.blocks.len(),
            0 <= p < self.offset_of(n),
        ensures
            self.has_owner(p),
        decreases n,
    {
        if n > 0 {
            let i = n - 1;
            assert(B::output_start_of(self.blocks[i]) == self.offset_of(i as nat));
            if p < self.offset_of(i as nat) {
                self.slot_has_owner(p, i as nat);
            } else {
                assert(self.owns(i, p));
            }
        }
    }

    /// The graph after registering the blocks of `ms` one after another.
    pub open spec fn registered_all(self, ms: Seq<B::Model>) -> Self
        decreases ms.len(),
    {
        if ms.len() == 0 {
            self
        } else {
            self.registered_all(ms.drop_last()).registered(ms.last())
        }
    }

    /// Whether each block of `ms` is admitted by the graph that the blocks
    /// before it have left.
    pub open spec fn admits_all(self, ms: Seq<B::Model>) -> bool
        decreases ms.len(),
    {
        ms.len() == 0 || {
            &&& self.admits_all(ms.drop_last())
            &&& self.registered_all(ms.drop_last()).admits(ms.last())
        }
    }

    /// Whether the stream has room for each block of `ms` in the graph that
    /// the blocks before it have left.
    pub open spec fn has_room_for_all(self, ms: Seq<B::Model>) -> bool
        decreases ms.len(),
    {
        ms.len() == 0 || {
            &&& self.has_room_for_all(ms.drop_last())
            &&& self.registered_all(ms.drop_last()).has_room_for(ms.last())
        }
    }

    /// Whatever valid blocks are registered, in whatever number, the regions
    /// go on tiling the stream: the blocks that were there keep their
    /// places, the new ones follow in the order of registration, and the
    /// stream never shrinks.
    pub proof fn registrations_keep_tiling(self, ms: Seq<B::Model>)
        requires
            self.tiled(),
            self.has_room_for_all(ms),
        ensures
            self.registered_all(ms).tiled(),
            self.registered_all(ms).blocks.len() == self.blocks.len() + ms.len(),
            forall|i: int|
                0 <= i < self.blocks.len() ==> #[trigger] self.registered_all(ms).blocks[i]
                    == self.blocks[i],
            self.stream.len() <= self.registered_all(ms).stream.len(),
        decreases ms.len(),
    {
        if ms.len() > 0 {
            self.registrations_keep_tiling(ms.drop_last());
            self.registered_all(ms.drop_last()).registration_keeps_tiling(ms.last());
        }
    }

    /// Whatever blocks are registered, in whatever number, a well-formed
    /// graph stays well-formed where it admits each of them: it stays fit to
    /// run. The blocks that were there keep their places, and the new ones
    /// follow in the order of registration.
    pub proof fn registrations_keep_wf(self, ms: Seq<B::Model>)
        requires
            self.wf(),
            self.admits_all(ms),
        ensures
            self.registered_all(ms).wf(),
            self.registered_all(ms).blocks.len() == self.blocks.len() + ms.len(),
            forall|i: int|
                0 <= i < self.blocks.len() ==> #[trigger] self.registered_all(ms).blocks[i]
                    == self.blocks[i],
        decreases ms.len(),
    {
        if ms.len() > 0 {
            self.registrations_keep_wf(ms.drop_last());
            self.registered_all(ms.drop_last()).registration_keeps_wf(ms.last());
        }
    }

    /// A connection that names an output slot at or beyond the producer's
    /// width is refused as out of range, whatever the consumer.
    pub proof fn slot_beyond_width_is_refused(self, a: int, k: int, b: int)
        requires
            0 <= a < self.blocks.len(),
            k >= B::dim_of(self.blocks[a]),
        ensures
            self.connected(a, k, b) == Err::<Self, WiringError>(WiringError::OutOfRange),
    {
    }

    /// Of two blocks due at the same time, the scheduler never picks the one
    /// registered later.
    pub proof fn tie_goes_to_the_first_registered(self, i: int, j: int)
        requires
            0 <= i < j < self.blocks.len(),
            self.due(i) == self.due(j),
        ensures
            self.earliest() != j,
    {
        self.earliest_is_first_minimum(self.blocks.len());
    }

    /// A tick steps the block the scheduler picked and no other: every other
    /// block is afterwards what it was, its next time included; every slot
    /// outside the picked block's region keeps its value; and the clock
    /// stands at the time for which the picked block was due.
    pub proof fn tick_steps_one_block(self)
        requires
            self.wf(),
            self.blocks.len() > 0,
        ensures
            self.tick() matches Ok(g) ==> {
                &&& forall|j: int|
                    0 <= j < self.blocks.len() && j != self.earliest() ==> g.blocks[j]
                        == self.blocks[j]
                &&& forall|p: int|
                    0 <= p < self.stream.len() && !(self.region_start(self.earliest()) <= p
                        < self.region_end(self.earliest())) ==> g.stream[p] == self.stream[p]
                &&& g.time.as_int() == self.due(self.earliest())
                &&& g.started
            },
    {
        self.earliest_is_first_minimum(self.blocks.len());
        self.tick_preserves_wf();
        let e = self.earliest();
        self.offsets_ordered((e + 1) as nat, self.blocks.len());
        B::step_law(self.blocks[e], self.stream);
    }

    /// In a tiled graph every region lies within the stream, and the
    /// stream within what an offset can address.
    pub proof fn region_lies_in_the_stream(self, i: int)
        requires
            self.tiled(),
            0 <= i < self.blocks.len(),
        ensures
            0 <= self.region_start(i) <= self.region_end(i) <= self.stream.len() <= usize::MAX,
    {
        assert(B::output_start_of(self.blocks[i]) == self.offset_of(i as nat));
        self.offsets_ordered((i + 1) as nat, self.blocks.len());
    }

    /// A tick writes on the region of the block it picked what that block's
    /// step gives, slot by slot.
    pub proof fn tick_writes_step_output(self)
        requires
            self.wf(),
            self.blocks.len() > 0,
        ensures
            self.tick() matches Ok(g) ==> B::step_of(
                self.blocks[self.earliest()],
                self.stream,
            ) matches Ok((n, out)) && forall|p: int|
                0 <= p < out.len() ==> g.stream[self.region_start(self.earliest()) + p]
                    == #[trigger] out[p],
    {
        let e = self.earliest();
        self.earliest_is_first_minimum(self.blocks.len());
        self.region_lies_in_the_stream(e);
        assert(B::valid(self.blocks[e]));
        assert(all_below(B::inputs_of(self.blocks[e]), self.stream.len()));
        B::step_law(self.blocks[e], self.stream);
    }

    /// A run keeps a well-formed graph well-formed, keeps its blocks in
    /// place and the stream at its length, and never moves the clock back.
    pub proof fn run_preserves_wf(self, stop: T, fuel: nat)
        requires
            self.wf(),
        ensures
            self.run(stop, fuel).0.wf(),
            self.run(stop, fuel).0.blocks.len() == self.blocks.len(),
            self.run(stop, fuel).0.stream.len() == self.stream.len(),
            self.time.as_int() <= self.run(stop, fuel).0.time.as_int(),
        decreases fuel,
    {
        if self.blocks.len() > 0 && fuel > 0 {
            self.tick_preserves_wf();
            if let Ok(g) = self.tick() {
                g.run_preserves_wf(stop, (fuel - 1) as nat);
            }
        }
    }

    /// A run that ends well leaves no block due at or before the stop time.
    pub proof fn finished_run_leaves_nothing_due(self, stop: T, fuel: nat)
        requires
            self.wf(),
            self.run(stop, fuel).1 is Ok,
        ensures
            forall|j: int|
                0 <= j < self.blocks.len() ==> stop.as_int() < #[trigger] self.run(
                    stop,
                    fuel,
                ).0.due(j),
        decreases fuel,
    {
        if self.blocks.len() > 0 {
            if stop.as_int() < self.due(self.earliest()) {
                self.earliest_is_first_minimum(self.blocks.len());
            } else if fuel > 0 {
                self.tick_preserves_wf();
                if let Ok(g) = self.tick() {
                    g.finished_run_leaves_nothing_due(stop, (fuel - 1) as nat);
                }
            }
        }
    }

    /// The step budget only matters when it runs out: a run that did not end
    /// on the budget ends the same with any larger one.
    pub proof fn spare_budget_changes_nothing(self, stop: T, fuel: nat, more: nat)
        requires
            fuel <= more,
            self.run(stop, fuel).1 != Err::<(), RunError>(RunError::StepLimit),
        ensures
            self.run(stop, more) == self.run(stop, fuel),
        decreases fuel,
    {
        if self.blocks.len() > 0 && !(stop.as_int() < self.due(self.earliest())) && fuel > 0 {
            if let Ok(g) = self.tick() {
                g.spare_budget_changes_nothing(stop, (fuel - 1) as nat, (more - 1) as nat);
            }
        }
    }

    /// A run is a function of the graph it starts from: two runs from the
    /// same graph to the same stop time end in the same graph, with the same
    /// values in every block's output region, and in the same way.
    pub proof fn run_is_deterministic(self, other: Self, stop: T, fuel: nat)
        requires
            self == other,
        ensures
            self.run(stop, fuel) == other.run(stop, fuel),
            forall|i: int|
                0 <= i < self.blocks.len() ==> self.run(stop, fuel).0.outputs_of(i) == other.run(
                    stop,
                    fuel,
                ).0.outputs_of(i),
    {
    }

    /// A run on a graph without blocks changes nothing and ends well: the
    /// clock stays where it was.
    pub proof fn run_of_empty_graph(self, stop: T, fuel: nat)
        requires
            self.blocks.len() == 0,
        ensures
            self.run(stop, fuel) == (self, Ok::<(), RunError>(())),
    {
    }
}

impl<T: Time, V: Value, B: Source<T, V>> Graph<T, V, B> {
    /// Whether the stream holds, on the region of block `i`, the outputs
    /// that the block itself holds as its latest.
    pub open spec fn in_step(self, i: int) -> bool {
        forall|p: int|
            0 <= p < B::dim_of(self.blocks[i]) ==> #[trigger] self.stream[self.region_start(i) + p]
                == B::latest_output(self.blocks[i], p)
    }

    /// A tick leaves the stream in step with the block it stepped, and in
    /// step with every other block with which it was in step before.
    pub proof fn tick_keeps_stream_in_step(self)
        requires
            self.wf(),
            self.blocks.len() > 0,
        ensures
            self.tick() matches Ok(g) ==> {
                &&& g.in_step(self.earliest())
                &&& forall|j: int|
                    0 <= j < self.blocks.len() && j != self.earliest() && self.in_step(j)
                        ==> g.in_step(j)
            },
    {
        let e = self.earliest();
        self.earliest_is_first_minimum(self.blocks.len());
        self.tick_preserves_wf();
        self.tick_steps_one_block();
        self.regions_tile_the_stream();
        self.offsets_ordered((e + 1) as nat, self.blocks.len());
        B::step_law(self.blocks[e], self.stream);
        B::source_law(self.blocks[e], self.stream);
        if let Ok(g) = self.tick() {
            let out = B::step_of(self.blocks[e], self.stream)->Ok_0.1;
            assert forall|p: int| 0 <= p < B::dim_of(g.blocks[e]) implies #[trigger] g.stream[
                g.region_start(e) + p
            ] == B::latest_output(g.blocks[e], p) by {
                assert(g.stream[g.region_start(e) + p] == out[p]);
            }
            assert forall|j: int|
                0 <= j < self.blocks.len() && j != e && self.in_step(j) implies g.in_step(j) by {
                assert forall|p: int|
                    0 <= p < B::dim_of(g.blocks[j]) implies #[trigger] g.stream[
                    g.region_start(j) + p
                ] == B::latest_output(g.blocks[j], p) by {
                    let q = self.region_start(j) + p;
                    assert(self.owns(j, q));
                    assert(!self.owns(e, q));
                    self.offsets_ordered((j + 1) as nat, self.blocks.len());
                    assert(self.stream[self.region_start(j) + p] == B::latest_output(
                        self.blocks[j],
                        p,
                    ));
                }
            }
        }
    }
}

impl<T: Time, V: Value, B: Source<T, V>> Graph<T, V, B> {
    /// Where the block picked for the tick writes the sum of the first
    /// slots of two blocks with which the stream is in step, it writes the
    /// sum of the latest outputs of those two blocks.
    pub proof fn tick_sums_latest_outputs(self, a: int, b: int)
        requires
            self.wf(),
            0 <= a < self.blocks.len(),
            0 <= b < self.blocks.len(),
            B::dim_of(self.blocks[a]) >= 1,
            B::dim_of(self.blocks[b]) >= 1,
            self.in_step(a),
            self.in_step(b),
            B::step_of(self.blocks[self.earliest()], self.stream) matches Ok((n, out))
                ==> out.len() >= 1 && out[0].as_int() == self.stream[self.region_start(a)].as_int()
                + self.stream[self.region_start(b)].as_int(),
        ensures
            self.tick() matches Ok(g) ==> g.stream[self.region_start(self.earliest())].as_int()
                == B::latest_output(self.blocks[a], 0).as_int() + B::latest_output(
                self.blocks[b],
                0,
            ).as_int(),
    {
        self.tick_writes_step_output();
        assert(self.stream[self.region_start(a) + 0] == B::latest_output(self.blocks[a], 0));
        assert(self.stream[self.region_start(b) + 0] == B::latest_output(self.blocks[b], 0));
        if let Ok(g) = self.tick() {
            let out = B::step_of(self.blocks[self.earliest()], self.stream)->Ok_0.1;
            assert(g.stream[self.region_start(self.earliest()) + 0] == out[0]);
        }
    }
}

/// A summation with two inputs writes, when it is stepped, the sum of the
/// two stream values it is wired to.
pub proof fn summation_of_two_inputs<T: Time, V: Value>(
    m: BlockModel<T, V>,
    stream: Seq<V>,
    first: usize,
    second: usize,
)
    requires
        m is Adder,
        Block::<T, V>::valid(m),
        Block::<T, V>::inputs_of(m) == seq![first, second],
    ensures
        Block::<T, V>::step_of(m, stream) matches Ok((n, out)) ==> out.len() == 1
            && out[0].as_int() == stream[first as int].as_int() + stream[second as int].as_int(),
{
    let x = m->Adder_0;
    x.step_is_exact(stream);
    input_sum_of_two(stream, x.core.inputs);
}

/// A summation wired to the outputs of two blocks writes, when it is stepped,
/// the sum of the values that those blocks wrote last, however long ago: it
/// reads what the stream holds, not what the blocks would compute for its
/// own time.
pub proof fn summation_adds_latest_outputs<T: Time, V: Value>(
    g: Graph<T, V, Block<T, V>>,
    a: int,
    b: int,
    c: int,
)
    requires
        g.wf(),
        0 <= a < g.blocks.len(),
        0 <= b < g.blocks.len(),
        0 <= c < g.blocks.len(),
        g.blocks[c] is Adder,
        Block::<T, V>::inputs_of(g.blocks[c]) == seq![
            g.region_start(a) as usize,
            g.region_start(b) as usize,
        ],
        g.in_step(a),
        g.in_step(b),
        g.earliest() == c,
    ensures
        g.tick() matches Ok(h) ==> h.stream[g.region_start(c)].as_int() == Block::<
            T,
            V,
        >::latest_output(g.blocks[a], 0).as_int() + Block::<T, V>::latest_output(
            g.blocks[b],
            0,
        ).as_int(),
{
    let first = g.region_start(a) as usize;
    let second = g.region_start(b) as usize;
    g.region_lies_in_the_stream(a);
    g.region_lies_in_the_stream(b);
    assert(Block::<T, V>::valid(g.blocks[c]));
    summation_of_two_inputs(g.blocks[c], g.stream, first, second);
    assert(Block::<T, V>::dim_of(g.blocks[a]) == 1);
    assert(Block::<T, V>::dim_of(g.blocks[b]) == 1);
    g.tick_sums_latest_outputs(a, b);
}

} // verus!
