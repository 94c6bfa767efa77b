//! A bundle's operators and the routing of elements between them.
use vstd::prelude::*;
use crate::elements::{WindowedValue, WindowedValueView};
use crate::operators::{elements_view, receivers_view, Operator, OperatorI, Receiver};
use crate::payload::texts;
use crate::registry::FnRegistry;
use crate::semantics::{
    finish_outcome, fresh_in_global_window, lemma_same_shape, lemma_steps_keep_shape, process_outcome,
    receivers_of, resolves, runnable, same_shape, start_outcome, targets, OperatorView,
};

verus! {

/// The operators of a bundle and the lines recorded so far.
pub struct RunState {
    pub ops: Seq<OperatorView>,
    pub log: Seq<Seq<char>>,
}

/// Every consumer of `op`'s output stands before position `i`.
pub open spec fn consumers_before(op: OperatorView, i: int) -> bool {
    forall|k: int| 0 <= k < targets(receivers_of(op)).len() ==> #[trigger] targets(receivers_of(op))[k] < i
}

/// Every operator runs, and consumers stand before their producers; so
/// routing an element always ends.
pub open spec fn well_formed(ops: Seq<OperatorView>) -> bool {
    forall|i: int| 0 <= i < ops.len() ==> runnable(#[trigger] ops[i]) && consumers_before(ops[i], i)
}

/// The registry holds every function that the operators name.
pub open spec fn resolved<R: FnRegistry>(registry: R, ops: Seq<OperatorView>) -> bool {
    forall|i: int| 0 <= i < ops.len() ==> resolves(registry, #[trigger] ops[i])
}

/// Position by position, the same shapes.
pub open spec fn same_shapes(a: Seq<OperatorView>, b: Seq<OperatorView>) -> bool {
    a.len() == b.len() && forall|i: int| 0 <= i < a.len() ==> same_shape(#[trigger] a[i], b[i])
}

/// Operator `i` processes `v`; what it emits goes, element by element, to
/// every consumer of every receiver of its output, in order.
pub open spec fn deliver<R: FnRegistry>(registry: R, st: RunState, i: int, v: WindowedValueView) -> RunState
    decreases i + 1, 0int, 0int,
{
    if 0 <= i < st.ops.len() {
        let step = process_outcome(registry, st.ops[i], v);
        let st1 = RunState { ops: st.ops.update(i, step.0), log: st.log + step.2 };
        fan_outs(registry, st1, step.1, targets(receivers_of(step.0)), i)
    } else {
        st
    }
}

/// Each element of `outs`, in order, goes to the consumers `ts`.
pub open spec fn fan_outs<R: FnRegistry>(
    registry: R,
    st: RunState,
    outs: Seq<WindowedValueView>,
    ts: Seq<usize>,
    bound: int,
) -> RunState
    decreases bound, 1int, outs.len(),
{
    if outs.len() == 0 {
        st
    } else {
        fan_outs(registry, fan_targets(registry, st, outs[0], ts, bound), outs.drop_first(), ts, bound)
    }
}

/// Element `v` goes to each consumer of `ts` in order; only consumers
/// before `bound` are reached.
pub open spec fn fan_targets<R: FnRegistry>(
    registry: R,
    st: RunState,
    v: WindowedValueView,
    ts: Seq<usize>,
    bound: int,
) -> RunState
    decreases bound, 0int, ts.len(),
{
    if ts.len() == 0 {
        st
    } else {
        let st1 = if 0 <= ts[0] < bound {
            deliver(registry, st, ts[0] as int, v)
        } else {
            st
        };
        fan_targets(registry, st1, v, ts.drop_first(), bound)
    }
}

/// Same shapes carry well-formedness and resolution over.
pub proof fn lemma_same_shapes<R: FnRegistry>(registry: R, a: Seq<OperatorView>, b: Seq<OperatorView>)
    requires
        same_shapes(a, b),
    ensures
        well_formed(a) ==> well_formed(b),
        resolved(registry, a) ==> resolved(registry, b),
        same_shapes(b, a),
{
    assert forall|i: int| 0 <= i < a.len() implies {
        &&& receivers_of(#[trigger] a[i]) == receivers_of(b[i])
        &&& runnable(a[i]) == runnable(b[i])
        &&& resolves(registry, a[i]) == resolves(registry, b[i])
        &&& same_shape(b[i], a[i])
    } by {
        lemma_same_shape(registry, a[i], b[i]);
    }
    if well_formed(a) {
        assert forall|i: int| 0 <= i < b.len() implies runnable(#[trigger] b[i]) && consumers_before(b[i], i) by {
            assert(runnable(a[i]) && consumers_before(a[i], i));
            assert(receivers_of(a[i]) == receivers_of(b[i]));
        }
    }
    if resolved(registry, a) {
        assert forall|i: int| 0 <= i < b.len() implies resolves(registry, #[trigger] b[i]) by {
            assert(resolves(registry, a[i]));
        }
    }
}

proof fn lemma_same_shapes_trans(a: Seq<OperatorView>, b: Seq<OperatorView>, c: Seq<OperatorView>)
    requires
        same_shapes(a, b),
        same_shapes(b, c),
    ensures
        same_shapes(a, c),
{
    assert forall|i: int| 0 <= i < a.len() implies same_shape(#[trigger] a[i], c[i]) by {
        assert(same_shape(a[i], b[i]));
        assert(same_shape(b[i], c[i]));
    }
}

/// The operators of a bundle, consumers before producers, and the lines
/// that recording operators have written.
pub struct BundleGraph {
    pub operators: Vec<Operator>,
    pub log: Vec<String>,
}

pub open spec fn states(ops: Seq<Operator>) -> Seq<OperatorView> {
    ops.map_values(|o: Operator| o.state())
}

impl View for BundleGraph {
    type V = RunState;

    open spec fn view(&self) -> RunState {
        RunState { ops: states(self.operators@), log: texts(self.log@) }
    }
}

/// Operator `i` takes a step that yields `step`; the elements `outs` it
/// emitted are routed on.
pub open spec fn step_then_route<R: FnRegistry>(
    registry: R,
    st: RunState,
    i: int,
    step: (OperatorView, Seq<Seq<char>>),
    outs: Seq<WindowedValueView>,
) -> RunState {
    fan_outs(
        registry,
        RunState { ops: st.ops.update(i, step.0), log: st.log + step.1 },
        outs,
        targets(receivers_of(step.0)),
        i,
    )
}

/// Each element of `outs` goes to the consumers of one receiver, taking
/// the receivers in turn from position `r` and starting over after the last.
pub open spec fn fan_cycle<R: FnRegistry>(
    registry: R,
    st: RunState,
    outs: Seq<WindowedValueView>,
    receivers: Seq<Seq<usize>>,
    r: int,
    bound: int,
) -> RunState
    decreases outs.len(),
{
    if outs.len() == 0 || !(0 <= r < receivers.len()) {
        st
    } else {
        let next = if r + 1 == receivers.len() {
            0
        } else {
            r + 1
        };
        fan_cycle(registry, fan_targets(registry, st, outs[0], receivers[r], bound), outs.drop_first(), receivers, next, bound)
    }
}

/// Operator `i` finishes its bundle with `step` and emits `outs`. A
/// group-by-key operator's elements are built per receiver, so each goes
/// to its own receiver; any other operator's go to all of them.
pub open spec fn finish_then_route<R: FnRegistry>(
    registry: R,
    st: RunState,
    i: int,
    step: (OperatorView, Seq<Seq<char>>),
    outs: Seq<WindowedValueView>,
) -> RunState {
    if st.ops[i] is GroupByKey {
        fan_cycle(
            registry,
            RunState { ops: st.ops.update(i, step.0), log: st.log + step.1 },
            outs,
            receivers_of(step.0),
            0,
            i,
        )
    } else {
        step_then_route(registry, st, i, step, outs)
    }
}

/// Every consumer of every receiver occurs among the flattened consumers.
pub proof fn lemma_targets_contain(receivers: Seq<Seq<usize>>, r: int, k: int)
    requires
        0 <= r < receivers.len(),
        0 <= k < receivers[r].len(),
    ensures
        exists|j: int| 0 <= j < targets(receivers).len() && targets(receivers)[j] == receivers[r][k],
    decreases receivers.len(),
{
    let d = receivers.drop_last();
    if r == receivers.len() - 1 {
        assert(targets(receivers)[targets(d).len() + k] == receivers[r][k]);
    } else {
        lemma_targets_contain(d, r, k);
        let j = choose|j: int| 0 <= j < targets(d).len() && targets(d)[j] == d[r][k];
        assert(targets(receivers)[j] == targets(d)[j]);
    }
}

impl BundleGraph {
    /// Collects the operators of a bundle, or `None` unless every operator
    /// has an implementation and every consumer stands before its producer.
    pub fn new(operators: Vec<Operator>) -> (r: Option<BundleGraph>)
        ensures
            match r {
                Some(g) => g@.ops == states(operators@) && g@.log == Seq::<Seq<char>>::empty()
                    && well_formed(g@.ops),
                None => !well_formed(states(operators@)),
            },
    {
        let ghost ops = states(operators@);
        let mut i: usize = 0;
        while i < operators.len()
            invariant
                0 <= i <= operators@.len(),
                ops == states(operators@),
                forall|j: int| 0 <= j < i ==> runnable(#[trigger] ops[j]) && consumers_before(ops[j], j),
            decreases operators@.len() - i,
        {
            assert(ops[i as int] == operators@[i as int].state());
            if !operators[i].is_runnable() {
                return None;
            }
            let ts = operators[i].consumer_positions();
            let mut k: usize = 0;
            while k < ts.len()
                invariant
                    0 <= k <= ts@.len(),
                    i < operators@.len(),
                    ops == states(operators@),
                    ts@ == targets(receivers_of(ops[i as int])),
                    forall|q: int| 0 <= q < k ==> #[trigger] ts@[q] < i,
                decreases ts@.len() - k,
            {
                if ts[k] >= i {
                    proof {
                        assert(targets(receivers_of(ops[i as int]))[k as int] >= i);
                        assert(!consumers_before(ops[i as int], i as int));
                    }
                    return None;
                }
                k = k + 1;
            }
            i = i + 1;
        }
        let g = BundleGraph { operators, log: Vec::new() };
        proof {
            assert(g@.log =~= Seq::<Seq<char>>::empty());
        }
        Some(g)
    }

    /// Operator `i` processes `value`, and every element it emits is routed
    /// to the consumers of its output, depth first.
    pub fn process_at<R: FnRegistry>(&mut self, i: usize, value: &WindowedValue, registry: &R)
        requires
            well_formed(old(self)@.ops),
            resolved(*registry, old(self)@.ops),
            i < old(self)@.ops.len(),
        ensures
            final(self)@ == deliver(*registry, old(self)@, i as int, value@),
            same_shapes(old(self)@.ops, final(self)@.ops),
    {
        self.deliver_at(i, value, registry)
    }

    /// Operator `i` starts its bundle; the elements it emits, each stamped
    /// into the global window, are routed on.
    pub fn start_bundle_at<R: FnRegistry>(&mut self, i: usize, registry: &R)
        requires
            well_formed(old(self)@.ops),
            resolved(*registry, old(self)@.ops),
            i < old(self)@.ops.len(),
        ensures
            exists|outs: Seq<WindowedValueView>|
                fresh_in_global_window(outs, start_outcome(old(self)@.ops[i as int]).1) && final(self)@
                    == step_then_route(
                    *registry,
                    old(self)@,
                    i as int,
                    (start_outcome(old(self)@.ops[i as int]).0, start_outcome(old(self)@.ops[i as int]).2),
                    outs,
                ),
            same_shapes(old(self)@.ops, final(self)@.ops),
    {
        let ghost st0 = self@;
        let ghost step = start_outcome(st0.ops[i as int]);
        proof {
            assert(runnable(st0.ops[i as int]));
            assert(self.operators@[i as int].state() == st0.ops[i as int]);
        }
        let out = self.operators[i].start_bundle();
        self.append_log(&out.log);
        let ts = self.operators[i].consumer_positions();
        proof {
            lemma_steps_keep_shape(*registry, st0.ops[i as int], arbitrary());
            assert(self@.ops =~= st0.ops.update(i as int, step.0));
            lemma_same_shapes(*registry, st0.ops, self@.ops);
            assert(consumers_before(st0.ops[i as int], i as int));
            lemma_same_shape(*registry, st0.ops[i as int], step.0);
        }
        let ghost mid = self@;
        self.fan_outs(&out.values, &ts, i, registry);
        proof {
            lemma_same_shapes_trans(st0.ops, mid.ops, self@.ops);
            assert(fresh_in_global_window(elements_view(out.values@), step.1));
        }
    }

    /// Operator `i` finishes its bundle; the elements it emits, each stamped
    /// into the global window, are routed on.
    pub fn finish_bundle_at<R: FnRegistry>(&mut self, i: usize, registry: &R)
        requires
            well_formed(old(self)@.ops),
            resolved(*registry, old(self)@.ops),
            i < old(self)@.ops.len(),
        ensures
            exists|outs: Seq<WindowedValueView>|
                fresh_in_global_window(outs, finish_outcome(*registry, old(self)@.ops[i as int]).1)
                    && final(self)@ == finish_then_route(
                    *registry,
                    old(self)@,
                    i as int,
                    (
                        finish_outcome(*registry, old(self)@.ops[i as int]).0,
                        finish_outcome(*registry, old(self)@.ops[i as int]).2,
                    ),
                    outs,
                ),
            same_shapes(old(self)@.ops, final(self)@.ops),
    {
        let ghost st0 = self@;
        let ghost step = finish_outcome(*registry, st0.ops[i as int]);
        proof {
            assert(runnable(st0.ops[i as int]));
            assert(resolves(*registry, st0.ops[i as int]));
            assert(self.operators@[i as int].state() == st0.ops[i as int]);
        }
        let per_receiver = self.operators[i].is_group_by_key();
        let out = self.operators[i].finish_bundle(registry);
        self.append_log(&out.log);
        proof {
            lemma_steps_keep_shape(*registry, st0.ops[i as int], arbitrary());
            assert(self@.ops =~= st0.ops.update(i as int, step.0));
            lemma_same_shapes(*registry, st0.ops, self@.ops);
            assert(consumers_before(st0.ops[i as int], i as int));
            lemma_same_shape(*registry, st0.ops[i as int], step.0);
        }
        let ghost mid = self@;
        if per_receiver {
            let receivers = self.operators[i].receiver_lists();
            proof {
                assert forall|r: int, k: int|
                    0 <= r < receivers@.len() && 0 <= k < receivers@[r]@.len() implies #[trigger] receivers@[r]@[k]
                        < i by {
                    assert(receivers_view(receivers@)[r] == receivers@[r]@);
                    lemma_targets_contain(receivers_view(receivers@), r, k);
                }
            }
            self.fan_cycle_exec(&out.values, &receivers, i, registry);
        } else {
            let ts = self.operators[i].consumer_positions();
            self.fan_outs(&out.values, &ts, i, registry);
        }
        proof {
            lemma_same_shapes_trans(st0.ops, mid.ops, self@.ops);
            assert(fresh_in_global_window(elements_view(out.values@), step.1));
        }
    }

    /// Each element of `outs` goes to the consumers of one receiver, taking
    /// the receivers in turn.
    fn fan_cycle_exec<R: FnRegistry>(&mut self, outs: &Vec<WindowedValue>, receivers: &Vec<Receiver>, bound: usize, registry: &R)
        requires
            well_formed(old(self)@.ops),
            resolved(*registry, old(self)@.ops),
            bound <= old(self)@.ops.len(),
            forall|r: int, k: int|
                0 <= r < receivers@.len() && 0 <= k < receivers@[r]@.len() ==> #[trigger] receivers@[r]@[k] < bound,
        ensures
            final(self)@ == fan_cycle(*registry, old(self)@, elements_view(outs@), receivers_view(receivers@), 0, bound as int),
            same_shapes(old(self)@.ops, final(self)@.ops),
    {
        let ghost st0 = self@;
        let ghost all = elements_view(outs@);
        let ghost rv = receivers_view(receivers@);
        let ghost goal = fan_cycle(*registry, st0, all, rv, 0, bound as int);
        proof {
            lemma_same_shapes(*registry, st0.ops, st0.ops);
        }
        if receivers.len() == 0 {
            return;
        }
        let mut r: usize = 0;
        let mut k: usize = 0;
        proof {
            assert(all.subrange(0, all.len() as int) =~= all);
        }
        while k < outs.len()
            invariant
                0 <= k <= outs@.len(),
                0 <= r < receivers@.len(),
                all == elements_view(outs@),
                rv == receivers_view(receivers@),
                fan_cycle(*registry, self@, all.subrange(k as int, all.len() as int), rv, r as int, bound as int) == goal,
                same_shapes(st0.ops, self@.ops),
                well_formed(st0.ops),
                resolved(*registry, st0.ops),
                bound <= st0.ops.len(),
                forall|q: int, j: int|
                    0 <= q < receivers@.len() && 0 <= j < receivers@[q]@.len() ==> #[trigger] receivers@[q]@[j] < bound,
            decreases outs@.len() - k,
        {
            proof {
                lemma_same_shapes(*registry, st0.ops, self@.ops);
                let rest = all.subrange(k as int, all.len() as int);
                assert(rest[0] == outs@[k as int]@);
                assert(rest.drop_first() =~= all.subrange(k + 1, all.len() as int));
                assert(rv[r as int] == receivers@[r as int]@);
                assert forall|q: int| 0 <= q < receivers@[r as int].operators@.len() implies #[trigger] receivers@[r as int].operators@[q] < bound by {
                    assert(receivers@[r as int]@[q] == receivers@[r as int].operators@[q]);
                }
            }
            let ghost before = self@;
            self.fan_targets(&outs[k], &receivers[r].operators, bound, registry);
            proof {
                lemma_same_shapes_trans(st0.ops, before.ops, self@.ops);
            }
            if r == receivers.len() - 1 {
                r = 0;
            } else {
                r = r + 1;
            }
            k = k + 1;
        }
        proof {
            assert(all.subrange(k as int, all.len() as int) =~= Seq::<WindowedValueView>::empty());
        }
    }

    fn append_log(&mut self, lines: &Vec<String>)
        ensures
            final(self)@.log == old(self)@.log + texts(lines@),
            final(self).operators == old(self).operators,
    {
        let ghost start = self.log@;
        let mut i: usize = 0;
        while i < lines.len()
            invariant
                0 <= i <= lines@.len(),
                texts(self.log@) == texts(start) + texts(lines@).subrange(0, i as int),
                self.operators == old(self).operators,
            decreases lines@.len() - i,
        {
            let ghost prev = self.log@;
            let line = lines[i].clone();
            self.log.push(line);
            proof {
                assert(self.log@ == prev.push(line));
                assert(line@ == lines@[i as int]@);
                assert(texts(lines@).subrange(0, i + 1) =~= texts(lines@).subrange(0, i as int).push(line@));
                assert(texts(prev.push(line)) =~= texts(prev).push(line@));
                assert(texts(self.log@) =~= texts(start) + texts(lines@).subrange(0, i + 1));
            }
            i = i + 1;
        }
        proof {
            assert(texts(lines@).subrange(0, i as int) =~= texts(lines@));
        }
    }

    /// Operator `i` processes `v`, and what it emits is routed on.
    fn deliver_at<R: FnRegistry>(&mut self, i: usize, v: &WindowedValue, registry: &R)
        requires
            well_formed(old(self)@.ops),
            resolved(*registry, old(self)@.ops),
            i < old(self)@.ops.len(),
        ensures
            final(self)@ == deliver(*registry, old(self)@, i as int, v@),
            same_shapes(old(self)@.ops, final(self)@.ops),
        decreases i + 1, 0int, 0int,
    {
        let ghost st0 = self@;
        let ghost step = process_outcome(*registry, st0.ops[i as int], v@);
        proof {
            assert(runnable(st0.ops[i as int]));
            assert(resolves(*registry, st0.ops[i as int]));
            assert(self.operators@[i as int].state() == st0.ops[i as int]);
        }
        let out = self.operators[i].process(v, registry);
        self.append_log(&out.log);
        let ts = self.operators[i].consumer_positions();
        proof {
            lemma_steps_keep_shape(*registry, st0.ops[i as int], v@);
            assert(self@.ops =~= st0.ops.update(i as int, step.0));
            assert(same_shapes(st0.ops, self@.ops));
            lemma_same_shapes(*registry, st0.ops, self@.ops);
            assert(consumers_before(st0.ops[i as int], i as int));
            lemma_same_shape(*registry, st0.ops[i as int], step.0);
        }
        let ghost mid = self@;
        self.fan_outs(&out.values, &ts, i, registry);
        proof {
            lemma_same_shapes_trans(st0.ops, mid.ops, self@.ops);
        }
    }

    /// Each element of `outs`, in order, goes to the consumers `ts`.
    fn fan_outs<R: FnRegistry>(&mut self, outs: &Vec<WindowedValue>, ts: &Vec<usize>, bound: usize, registry: &R)
        requires
            well_formed(old(self)@.ops),
            resolved(*registry, old(self)@.ops),
            bound <= old(self)@.ops.len(),
            forall|k: int| 0 <= k < ts@.len() ==> #[trigger] ts@[k] < bound,
        ensures
            final(self)@ == fan_outs(*registry, old(self)@, elements_view(outs@), ts@, bound as int),
            same_shapes(old(self)@.ops, final(self)@.ops),
        decreases bound, 1int, 0int,
    {
        let ghost st0 = self@;
        let ghost all = elements_view(outs@);
        let ghost goal = fan_outs(*registry, st0, all, ts@, bound as int);
        let mut j: usize = 0;
        proof {
            assert(all.subrange(0, all.len() as int) =~= all);
        }
        while j < outs.len()
            invariant
                0 <= j <= outs@.len(),
                all == elements_view(outs@),
                goal == fan_outs(*registry, st0, all, ts@, bound as int),
                fan_outs(*registry, self@, all.subrange(j as int, all.len() as int), ts@, bound as int) == goal,
                same_shapes(st0.ops, self@.ops),
                well_formed(st0.ops),
                resolved(*registry, st0.ops),
                bound <= st0.ops.len(),
                forall|k: int| 0 <= k < ts@.len() ==> #[trigger] ts@[k] < bound,
            decreases outs@.len() - j,
        {
            proof {
                lemma_same_shapes(*registry, st0.ops, self@.ops);
                let rest = all.subrange(j as int, all.len() as int);
                assert(rest[0] == outs@[j as int]@);
                assert(rest.drop_first() =~= all.subrange(j + 1, all.len() as int));
            }
            let ghost before = self@;
            self.fan_targets(&outs[j], ts, bound, registry);
            proof {
                lemma_same_shapes_trans(st0.ops, before.ops, self@.ops);
            }
            j = j + 1;
        }
        proof {
            assert(all.subrange(j as int, all.len() as int) =~= Seq::<WindowedValueView>::empty());
        }
    }

    /// Element `v` goes to each consumer of `ts` in order.
    fn fan_targets<R: FnRegistry>(&mut self, v: &WindowedValue, ts: &Vec<usize>, bound: usize, registry: &R)
        requires
            well_formed(old(self)@.ops),
            resolved(*registry, old(self)@.ops),
            bound <= old(self)@.ops.len(),
            forall|k: int| 0 <= k < ts@.len() ==> #[trigger] ts@[k] < bound,
        ensures
            final(self)@ == fan_targets(*registry, old(self)@, v@, ts@, bound as int),
            same_shapes(old(self)@.ops, final(self)@.ops),
        decreases bound, 0int, ts@.len(),
    {
        let ghost st0 = self@;
        let ghost goal = fan_targets(*registry, st0, v@, ts@, bound as int);
        let mut k: usize = 0;
        proof {
            assert(ts@.subrange(0, ts@.len() as int) =~= ts@);
        }
        while k < ts.len()
            invariant
                0 <= k <= ts@.len(),
                goal == fan_targets(*registry, st0, v@, ts@, bound as int),
                fan_targets(*registry, self@, v@, ts@.subrange(k as int, ts@.len() as int), bound as int) == goal,
                same_shapes(st0.ops, self@.ops),
                well_formed(st0.ops),
                resolved(*registry, st0.ops),
                bound <= st0.ops.len(),
                forall|q: int| 0 <= q < ts@.len() ==> #[trigger] ts@[q] < bound,
            decreases ts@.len() - k,
        {
            proof {
                lemma_same_shapes(*registry, st0.ops, self@.ops);
                let rest = ts@.subrange(k as int, ts@.len() as int);
                assert(rest[0] == ts@[k as int]);
                assert(rest.drop_first() =~= ts@.subrange(k + 1, ts@.len() as int));
            }
            let ghost before = self@;
            let t = ts[k];
            self.deliver_at(t, v, registry);
            proof {
                lemma_same_shapes_trans(st0.ops, before.ops, self@.ops);
            }
            k = k + 1;
        }
        proof {
            assert(ts@.subrange(k as int, ts@.len() as int) =~= Seq::<usize>::empty());
        }
    }
}

impl Receiver {
    /// Hands `value` to each consumer of this receiver in order; what they
    /// emit is routed on.
    pub fn receive<R: FnRegistry>(&self, graph: &mut BundleGraph, value: &WindowedValue, registry: &R)
        requires
            well_formed(old(graph)@.ops),
            resolved(*registry, old(graph)@.ops),
            forall|k: int| 0 <= k < self@.len() ==> #[trigger] self@[k] < old(graph)@.ops.len(),
        ensures
            final(graph)@ == fan_targets(*registry, old(graph)@, value@, self@, old(graph)@.ops.len() as int),
            same_shapes(old(graph)@.ops, final(graph)@.ops),
    {
        let n = graph.operators.len();
        proof {
            assert(graph@.ops.len() == n);
            assert forall|k: int| 0 <= k < self.operators@.len() implies #[trigger] self.operators@[k] < n by {
                assert(self@[k] == self.operators@[k]);
            }
        }
        graph.fan_targets(value, &self.operators, n, registry);
    }
}

} // verus!
