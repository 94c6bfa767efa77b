//! Properties of the operators and of routing that span several steps.
use vstd::prelude::*;
use crate::elements::{ValueView, WindowedValueView};
use crate::graph::{deliver, fan_outs, fan_targets, finish_then_route, step_then_route, RunState};
use crate::operators::{creation, output_receivers, receiver_ops, Receiver};
use crate::proto::{first_named, lemma_first_named, names_distinct};
use crate::registry::FnRegistry;
use crate::semantics::{
    finish_outcome, group_insert, key_position, lemma_key_position, process_outcome, receivers_of,
    start_outcome, targets, Groups, OperatorView, start_line, finish_line, process_line, per_receiver, recombined_groups,
};

verus! {

// ******* Grouping within a bundle *******

/// The groups that a sequence of key-value pairs makes, inserted in order
/// into no groups.
pub open spec fn group_all(kvs: Seq<(Seq<char>, ValueView)>) -> Groups
    decreases kvs.len(),
{
    if kvs.len() == 0 {
        Seq::empty()
    } else {
        let g = group_all(kvs.drop_last());
        group_insert(g, kvs.last().0, kvs.last().1)
    }
}

/// The values paired with `key`, in arrival order.
pub open spec fn values_for(kvs: Seq<(Seq<char>, ValueView)>, key: Seq<char>) -> Seq<ValueView>
    decreases kvs.len(),
{
    if kvs.len() == 0 {
        Seq::empty()
    } else if kvs.last().0 == key {
        values_for(kvs.drop_last(), key).push(kvs.last().1)
    } else {
        values_for(kvs.drop_last(), key)
    }
}

/// No key has two groups.
pub open spec fn keys_distinct(groups: Groups) -> bool {
    forall|i: int, j: int| 0 <= i < j < groups.len() ==> groups[i].0 != groups[j].0
}

/// Grouping keeps one group per key that arrived, and each group holds
/// exactly the values that arrived with its key, in the order they arrived.
pub proof fn lemma_grouping(kvs: Seq<(Seq<char>, ValueView)>)
    ensures
        keys_distinct(group_all(kvs)),
        forall|i: int|
            0 <= i < group_all(kvs).len() ==> (#[trigger] group_all(kvs)[i]).1 == values_for(
                kvs,
                group_all(kvs)[i].0,
            ),
        forall|key: Seq<char>|
            (key_position(group_all(kvs), key) is Some) <==> exists|j: int|
                0 <= j < kvs.len() && (#[trigger] kvs[j]).0 == key,
    decreases kvs.len(),
{
    if kvs.len() == 0 {
    } else {
        let d = kvs.drop_last();
        let (k, v) = kvs.last();
        lemma_grouping(d);
        let g = group_all(d);
        let g2 = group_all(kvs);
        lemma_key_position(g, k);
        assert(g2 == group_insert(g, k, v));
        match key_position(g, k) {
            Some(p) => {
                assert(g2 == g.update(p, (k, g[p].1.push(v))));
                assert forall|i: int| 0 <= i < g2.len() implies (#[trigger] g2[i]).1 == values_for(kvs, g2[i].0) by {
                    if i == p {
                    } else {
                        assert(g2[i] == g[i]);
                        assert(g[i].0 != k);
                    }
                }
            },
            None => {
                assert(g2 == g.push((k, seq![v])));
                assert forall|i: int| 0 <= i < g2.len() implies (#[trigger] g2[i]).1 == values_for(kvs, g2[i].0) by {
                    if i < g.len() {
                        assert(g2[i] == g[i]);
                        assert(g[i].0 != k);
                    } else {
                        assert(values_for(d, k) == Seq::<ValueView>::empty()) by {
                            if values_for(d, k).len() > 0 {
                                lemma_values_for_witness(d, k);
                            }
                        }
                        assert(seq![v] =~= Seq::<ValueView>::empty().push(v));
                    }
                }
            },
        }
        assert forall|key: Seq<char>|
            (key_position(g2, key) is Some) <==> exists|j: int| 0 <= j < kvs.len() && (#[trigger] kvs[j]).0 == key by {
            lemma_key_position(g2, key);
            lemma_key_position(g, key);
            if key == k {
                assert(kvs[kvs.len() - 1].0 == key);
                match key_position(g, k) {
                    Some(p) => assert(g2[p].0 == key),
                    None => assert(g2[g.len() as int].0 == key),
                }
            } else {
                if exists|j: int| 0 <= j < kvs.len() && (#[trigger] kvs[j]).0 == key {
                    let j = choose|j: int| 0 <= j < kvs.len() && (#[trigger] kvs[j]).0 == key;
                    assert(j < d.len());
                    assert(d[j] == kvs[j]);
                    let q = key_position(g, key)->0;
                    assert(g2[q].0 == key);
                } else {
                    assert forall|j: int| 0 <= j < d.len() implies (#[trigger] d[j]).0 != key by {
                        assert(d[j] == kvs[j]);
                    }
                    assert forall|j: int| 0 <= j < g2.len() implies g2[j].0 != key by {
                        if j < g.len() {
                            match key_position(g, k) {
                                Some(p) => {
                                    if j != p {
                                        assert(g2[j] == g[j]);
                                    }
                                },
                                None => {
                                    assert(g2[j] == g[j]);
                                },
                            }
                        }
                    }
                }
            }
        }
        assert forall|i: int, j: int| 0 <= i < j < g2.len() implies g2[i].0 != g2[j].0 by {
            match key_position(g, k) {
                Some(p) => {},
                None => {
                    if j == g.len() {
                        assert(g2[i] == g[i]);
                    }
                },
            }
        }
    }
}

/// A key that arrived has at least one value.
proof fn lemma_values_for_nonempty(kvs: Seq<(Seq<char>, ValueView)>, key: Seq<char>)
    requires
        exists|j: int| 0 <= j < kvs.len() && (#[trigger] kvs[j]).0 == key,
    ensures
        values_for(kvs, key).len() > 0,
    decreases kvs.len(),
{
    if kvs.last().0 != key {
        let j = choose|j: int| 0 <= j < kvs.len() && (#[trigger] kvs[j]).0 == key;
        let d = kvs.drop_last();
        assert(d[j] == kvs[j]);
        lemma_values_for_nonempty(d, key);
    }
}

/// With one receiver, each element is emitted once.
proof fn lemma_per_receiver_one(values: Seq<ValueView>)
    ensures
        per_receiver(values, 1) == values,
    decreases values.len(),
{
    if values.len() > 0 {
        lemma_per_receiver_one(values.drop_last());
        assert(Seq::new(1, |_j: int| values.last()) =~= seq![values.last()]);
        assert(values.drop_last().push(values.last()) =~= values);
    }
}

/// Adding a value to the groups keeps their keys distinct.
pub proof fn lemma_group_insert_keeps_keys_distinct(groups: Groups, key: Seq<char>, value: ValueView)
    requires
        keys_distinct(groups),
    ensures
        keys_distinct(group_insert(groups, key, value)),
{
    lemma_key_position(groups, key);
    let g2 = group_insert(groups, key, value);
    assert forall|i: int, j: int| 0 <= i < j < g2.len() implies g2[i].0 != g2[j].0 by {
        match key_position(groups, key) {
            Some(p) => {
                assert(g2[i].0 == groups[i].0);
                assert(g2[j].0 == groups[j].0);
            },
            None => {
                if j == groups.len() {
                    assert(g2[i] == groups[i]);
                }
            },
        }
    }
}

proof fn lemma_values_for_witness(kvs: Seq<(Seq<char>, ValueView)>, key: Seq<char>)
    requires
        values_for(kvs, key).len() > 0,
    ensures
        exists|j: int| 0 <= j < kvs.len() && (#[trigger] kvs[j]).0 == key,
    decreases kvs.len(),
{
    if kvs.last().0 == key {
        assert(kvs[kvs.len() - 1].0 == key);
    } else {
        let d = kvs.drop_last();
        lemma_values_for_witness(d, key);
        let j = choose|j: int| 0 <= j < d.len() && (#[trigger] d[j]).0 == key;
        assert(kvs[j] == d[j]);
    }
}

/// The operator after processing `vs` one element at a time.
pub open spec fn process_all<R: FnRegistry>(registry: R, op: OperatorView, vs: Seq<WindowedValueView>) -> OperatorView
    decreases vs.len(),
{
    if vs.len() == 0 {
        op
    } else {
        process_outcome(registry, process_all(registry, op, vs.drop_last()), vs.last()).0
    }
}

/// The key-value pairs that extractor `key_extractor` makes of `vs`.
pub open spec fn extracted_all<R: FnRegistry>(registry: R, key_extractor: Seq<char>, vs: Seq<WindowedValueView>) -> Seq<(Seq<char>, ValueView)> {
    vs.map_values(|v: WindowedValueView| registry.extracted(key_extractor, v.value))
}

/// A group-by-key operator that starts a bundle and then processes `vs`
/// holds the grouping of their extracted pairs; finishing emits, group by
/// group and for each receiver, the recombination of each key with exactly
/// its values in arrival order.
pub proof fn lemma_group_by_key_bundle<R: FnRegistry>(registry: R, op: OperatorView, vs: Seq<WindowedValueView>)
    requires
        op is GroupByKey,
    ensures
        ({
            let done = process_all(registry, start_outcome(op).0, vs);
            let kvs = extracted_all(registry, op->key_extractor, vs);
            &&& done == (OperatorView::GroupByKey {
                receivers: op->GroupByKey_receivers,
                key_extractor: op->key_extractor,
                groups: group_all(kvs),
            })
            &&& keys_distinct(group_all(kvs))
            &&& forall|key: Seq<char>|
                (key_position(group_all(kvs), key) is Some) <==> exists|j: int|
                    0 <= j < kvs.len() && (#[trigger] kvs[j]).0 == key
            &&& forall|i: int|
                0 <= i < group_all(kvs).len() ==> (#[trigger] group_all(kvs)[i]).1 == values_for(kvs, group_all(kvs)[i].0)
                    && group_all(kvs)[i].1.len() > 0
            &&& finish_outcome(registry, done).0 == done
            &&& (op->GroupByKey_receivers.len() == 1 ==> finish_outcome(registry, done).1 == recombined_groups(
                registry,
                op->key_extractor,
                group_all(kvs),
            ))
            &&& finish_outcome(registry, done).1 == per_receiver(
                recombined_groups(registry, op->key_extractor, group_all(kvs)),
                op->GroupByKey_receivers.len(),
            )
            &&& forall|i: int|
                0 <= i < group_all(kvs).len() ==> #[trigger] recombined_groups(
                    registry,
                    op->key_extractor,
                    group_all(kvs),
                )[i] == registry.recombined(
                    op->key_extractor,
                    group_all(kvs)[i].0,
                    values_for(kvs, group_all(kvs)[i].0),
                )
        }),
    decreases vs.len(),
{
    let kvs = extracted_all(registry, op->key_extractor, vs);
    lemma_grouping(kvs);
    let g = group_all(kvs);
    assert forall|i: int| 0 <= i < g.len() implies (#[trigger] g[i]).1.len() > 0 by {
        lemma_key_position(g, g[i].0);
        lemma_values_for_nonempty(kvs, g[i].0);
    }
    lemma_per_receiver_one(recombined_groups(registry, op->key_extractor, g));
    if vs.len() > 0 {
        lemma_group_by_key_bundle(registry, op, vs.drop_last());
        assert(extracted_all(registry, op->key_extractor, vs.drop_last()) =~= kvs.drop_last());
    } else {
        assert(kvs =~= Seq::<(Seq<char>, ValueView)>::empty());
    }
}

// ******* Single operators *******

/// An impulse operator emits exactly one element per bundle: starting emits
/// one empty byte string, processing and finishing emit nothing, and none
/// of its steps records a line or changes its state.
pub proof fn lemma_impulse_bundle<R: FnRegistry>(registry: R, receivers: Seq<Seq<usize>>, v: WindowedValueView)
    ensures
        ({
            let op = OperatorView::Impulse { receivers };
            &&& start_outcome(op) == (op, seq![ValueView::Bytes(Seq::<u8>::empty())], Seq::<Seq<char>>::empty())
            &&& process_outcome(registry, op, v) == (op, Seq::<WindowedValueView>::empty(), Seq::<Seq<char>>::empty())
            &&& finish_outcome(registry, op) == (op, Seq::<ValueView>::empty(), Seq::<Seq<char>>::empty())
            &&& start_outcome(op).1.len() + process_outcome(registry, op, v).1.len() + finish_outcome(registry, op).1.len()
                == 1
        }),
{
}

/// A create operator emits one element per datum, in order and with
/// repeats kept, when a bundle starts; it emits nothing otherwise and never
/// records a line or changes its state.
pub proof fn lemma_create_emits_each_datum<R: FnRegistry>(
    registry: R,
    receivers: Seq<Seq<usize>>,
    data: Seq<Seq<char>>,
    v: WindowedValueView,
)
    ensures
        ({
            let op = OperatorView::Create { receivers, data };
            &&& start_outcome(op).0 == op
            &&& start_outcome(op).1.len() == data.len()
            &&& forall|k: int| 0 <= k < data.len() ==> #[trigger] start_outcome(op).1[k] == ValueView::Text(data[k])
            &&& start_outcome(op).2 == Seq::<Seq<char>>::empty()
            &&& process_outcome(registry, op, v) == (op, Seq::<WindowedValueView>::empty(), Seq::<Seq<char>>::empty())
            &&& finish_outcome(registry, op) == (op, Seq::<ValueView>::empty(), Seq::<Seq<char>>::empty())
        }),
{
}

// ******* Receivers of a built operator *******

/// A transform's outputs get one receiver each, in order; each is the
/// receiver registered for that output's collection.
pub proof fn lemma_output_receivers(entries: Seq<(String, Receiver)>, outputs: Seq<(String, String)>)
    ensures
        output_receivers(entries, outputs).len() == outputs.len(),
        forall|k: int|
            0 <= k < outputs.len() ==> #[trigger] output_receivers(entries, outputs)[k] == receiver_ops(
                entries,
                outputs[k].1@,
            ),
{
}

/// Where collections are registered once each, the receiver of a collection
/// is the one registered for it, and a collection with none registered has
/// no consumers.
pub proof fn lemma_receiver_ops(entries: Seq<(String, Receiver)>, pcollection: Seq<char>)
    requires
        names_distinct(entries),
    ensures
        forall|j: int|
            0 <= j < entries.len() && #[trigger] entries[j].0@ == pcollection ==> receiver_ops(entries, pcollection)
                == entries[j].1@,
        (forall|j: int| 0 <= j < entries.len() ==> #[trigger] entries[j].0@ != pcollection) ==> receiver_ops(
            entries,
            pcollection,
        ) == Seq::<usize>::empty(),
{
    crate::proto::lemma_first_named_unique(entries, pcollection);
    lemma_first_named(entries, pcollection);
}

/// An operator built for a transform has one receiver per output of the
/// transform, in order, each holding the consumers registered for that
/// output's collection.
pub proof fn lemma_built_operator_receivers<R: FnRegistry>(
    registry: R,
    context: crate::operators::OperatorContext,
    transform_id: Seq<char>,
)
    requires
        creation(registry, context, transform_id) is Ok,
    ensures
        ({
            let t = context.descriptor.transforms@[first_named(context.descriptor.transforms@, transform_id)->0].1;
            let op = creation(registry, context, transform_id)->Ok_0;
            &&& receivers_of(op).len() == t.outputs@.len()
            &&& forall|k: int|
                0 <= k < t.outputs@.len() ==> #[trigger] receivers_of(op)[k] == receiver_ops(
                    context.receivers@,
                    t.outputs@[k].1@,
                )
        }),
{
}

/// A `ParDo` emits the function's outputs in order, each in the windows, at
/// the timestamp and in the pane of the input.
pub proof fn lemma_pardo_keeps_windowing<R: FnRegistry>(registry: R, op: OperatorView, v: WindowedValueView)
    requires
        op is ParDo,
    ensures
        ({
            let outs = process_outcome(registry, op, v).1;
            let produced = registry.do_fn_outputs(op->do_fn, v.value);
            &&& outs.len() == produced.len()
            &&& forall|k: int|
                0 <= k < outs.len() ==> {
                    &&& (#[trigger] outs[k]).windows == v.windows
                    &&& outs[k].timestamp == v.timestamp
                    &&& outs[k].pane_info == v.pane_info
                    &&& outs[k].value == produced[k]
                }
        }),
{
}

/// Only a group-by-key operator changes its state when it processes an
/// element, and no operator but a recording one records anything.
pub proof fn lemma_only_grouping_keeps_state<R: FnRegistry>(registry: R, op: OperatorView, v: WindowedValueView)
    ensures
        !(op is GroupByKey) ==> process_outcome(registry, op, v).0 == op,
        !(op is Recording) ==> process_outcome(registry, op, v).2 == Seq::<Seq<char>>::empty(),
        op is Recording ==> process_outcome(registry, op, v).2.len() == 1,
{
}

/// Starting a bundle forgets what earlier bundles grouped: two operators of
/// the same shape are in the same state once the bundle has started.
pub proof fn lemma_start_resets(a: OperatorView, b: OperatorView)
    requires
        crate::semantics::same_shape(a, b),
    ensures
        start_outcome(a).0 == start_outcome(b).0,
{
}

// ******* Routing *******

/// Whatever the kind of operator `i`, routing an element to it takes the
/// step's new state and lines, then hands every emitted element, in order,
/// to every consumer of every receiver of the operator.
pub proof fn lemma_deliver_routes_every_output<R: FnRegistry>(registry: R, st: RunState, i: int, v: WindowedValueView)
    requires
        0 <= i < st.ops.len(),
    ensures
        ({
            let step = process_outcome(registry, st.ops[i], v);
            deliver(registry, st, i, v) == fan_outs(
                registry,
                RunState { ops: st.ops.update(i, step.0), log: st.log + step.2 },
                step.1,
                targets(receivers_of(st.ops[i])),
                i,
            )
        }),
{
    crate::semantics::lemma_steps_keep_shape(registry, st.ops[i], v);
    crate::semantics::lemma_same_shape(registry, st.ops[i], process_outcome(registry, st.ops[i], v).0);
}

/// One emitted element goes to each consumer in turn.
pub proof fn lemma_fan_one_output<R: FnRegistry>(
    registry: R,
    st: RunState,
    v: WindowedValueView,
    ts: Seq<usize>,
    bound: int,
)
    ensures
        fan_outs(registry, st, seq![v], ts, bound) == fan_targets(registry, st, v, ts, bound),
{
    let st1 = fan_targets(registry, st, v, ts, bound);
    assert(seq![v].drop_first() =~= Seq::<WindowedValueView>::empty());
    assert(fan_outs(registry, st1, Seq::<WindowedValueView>::empty(), ts, bound) == st1);
}

/// The consumers of a list of receivers are those of each receiver, in
/// receiver order: a single receiver contributes exactly its consumers,
/// and lists concatenate (see also `lemma_targets_contain`).
pub proof fn lemma_targets_of_receivers(a: Seq<Seq<usize>>, b: Seq<Seq<usize>>, x: Seq<usize>)
    ensures
        targets(Seq::<Seq<usize>>::empty()) == Seq::<usize>::empty(),
        targets(seq![x]) == x,
        targets(a + b) == targets(a) + targets(b),
    decreases b.len(),
{
    assert(seq![x].drop_last() =~= Seq::<Seq<usize>>::empty());
    assert(Seq::<usize>::empty() + x =~= x);
    if b.len() == 0 {
        assert(a + b =~= a);
        assert(targets(a) + Seq::<usize>::empty() =~= targets(a));
    } else {
        lemma_targets_of_receivers(a, b.drop_last(), x);
        assert((a + b).drop_last() =~= a + b.drop_last());
        assert((a + b).last() == b.last());
        assert(targets(a) + targets(b.drop_last()) + b.last() =~= targets(a) + (targets(b.drop_last()) + b.last()));
    }
}

/// A flatten operator leaves its state and the log alone and hands the
/// element, unchanged, to each of its consumers.
pub proof fn lemma_flatten_forwards<R: FnRegistry>(registry: R, st: RunState, i: int, v: WindowedValueView)
    requires
        0 <= i < st.ops.len(),
        st.ops[i] is Flatten,
    ensures
        deliver(registry, st, i, v) == fan_targets(registry, st, v, targets(receivers_of(st.ops[i])), i),
{
    let step = process_outcome(registry, st.ops[i], v);
    assert(st.ops.update(i, step.0) =~= st.ops);
    assert(st.log + step.2 =~= st.log);
    let outs = step.1;
    assert(outs.drop_first() =~= Seq::<WindowedValueView>::empty());
}

/// A recording operator records one line for the element and then hands
/// the element, unchanged, to each of its consumers.
pub proof fn lemma_recording_forwards<R: FnRegistry>(registry: R, st: RunState, i: int, v: WindowedValueView)
    requires
        0 <= i < st.ops.len(),
        st.ops[i] is Recording,
    ensures
        deliver(registry, st, i, v) == fan_targets(
            registry,
            RunState {
                ops: st.ops,
                log: st.log.push(crate::semantics::process_line(st.ops[i]->transform_id, v.value)),
            },
            v,
            targets(receivers_of(st.ops[i])),
            i,
        ),
{
    let step = process_outcome(registry, st.ops[i], v);
    assert(st.ops.update(i, step.0) =~= st.ops);
    assert(st.log + step.2 =~= st.log.push(crate::semantics::process_line(st.ops[i]->transform_id, v.value)));
    assert(step.1.drop_first() =~= Seq::<WindowedValueView>::empty());
}

/// A receiver without consumers changes nothing.
pub proof fn lemma_receive_nothing<R: FnRegistry>(registry: R, st: RunState, v: WindowedValueView, bound: int)
    ensures
        fan_targets(registry, st, v, Seq::empty(), bound) == st,
{
}

/// A receiver with consumers `a + b` hands the element to those of `a`,
/// then to those of `b`.
pub proof fn lemma_receive_concat<R: FnRegistry>(
    registry: R,
    st: RunState,
    v: WindowedValueView,
    a: Seq<usize>,
    b: Seq<usize>,
    bound: int,
)
    ensures
        fan_targets(registry, st, v, a + b, bound) == fan_targets(
            registry,
            fan_targets(registry, st, v, a, bound),
            v,
            b,
            bound,
        ),
    decreases a.len(),
{
    if a.len() > 0 {
        let st1 = if 0 <= a[0] < bound {
            deliver(registry, st, a[0] as int, v)
        } else {
            st
        };
        assert((a + b)[0] == a[0]);
        assert((a + b).drop_first() =~= a.drop_first() + b);
        lemma_receive_concat(registry, st1, v, a.drop_first(), b, bound);
    } else {
        assert(a + b =~= b);
    }
}

/// A receiver with a single consumer delivers the element to it.
pub proof fn lemma_receive_single<R: FnRegistry>(registry: R, st: RunState, v: WindowedValueView, t: usize, bound: int)
    requires
        t < bound,
    ensures
        fan_targets(registry, st, v, seq![t], bound) == deliver(registry, st, t as int, v),
{
    assert(seq![t].drop_first() =~= Seq::<usize>::empty());
    let st1 = deliver(registry, st, t as int, v);
    assert(fan_targets(registry, st1, v, Seq::<usize>::empty(), bound) == st1);
}

// ******* A recording operator's bundle *******

/// Operator `i` processes each of `vs` in turn, routing what it emits.
pub open spec fn deliver_all<R: FnRegistry>(registry: R, st: RunState, i: int, vs: Seq<WindowedValueView>) -> RunState
    decreases vs.len(),
{
    if vs.len() == 0 {
        st
    } else {
        deliver(registry, deliver_all(registry, st, i, vs.drop_last()), i, vs.last())
    }
}

/// The lines a recording operator writes for `vs`, one per element.
pub open spec fn recording_lines(transform_id: Seq<char>, vs: Seq<WindowedValueView>) -> Seq<Seq<char>> {
    vs.map_values(|v: WindowedValueView| process_line(transform_id, v.value))
}

proof fn lemma_recording_deliver_all<R: FnRegistry>(registry: R, st: RunState, i: int, vs: Seq<WindowedValueView>)
    requires
        0 <= i < st.ops.len(),
        st.ops[i] is Recording,
        receivers_of(st.ops[i]) == Seq::<Seq<usize>>::empty(),
    ensures
        deliver_all(registry, st, i, vs).ops == st.ops,
        deliver_all(registry, st, i, vs).log == st.log + recording_lines(st.ops[i]->transform_id, vs),
    decreases vs.len(),
{
    let id = st.ops[i]->transform_id;
    if vs.len() == 0 {
        assert(recording_lines(id, vs) =~= Seq::<Seq<char>>::empty());
        assert(st.log + recording_lines(id, vs) =~= st.log);
    } else {
        let d = vs.drop_last();
        lemma_recording_deliver_all(registry, st, i, d);
        let mid = deliver_all(registry, st, i, d);
        lemma_recording_forwards(registry, mid, i, vs.last());
        assert(targets(Seq::<Seq<usize>>::empty()) =~= Seq::<usize>::empty());
        assert(recording_lines(id, vs) =~= recording_lines(id, d).push(process_line(id, vs.last().value)));
        assert(st.log + recording_lines(id, vs) =~= (st.log + recording_lines(id, d)).push(
            process_line(id, vs.last().value),
        ));
    }
}

/// A recording operator without receivers that starts a bundle, processes
/// `vs` and finishes the bundle appends to the log, in call order, its
/// start line, one line per element showing the element's string (or
/// `{any}`) in debug rendering, and its finish line; the operators stay as
/// they were.
pub proof fn lemma_recording_session<R: FnRegistry>(registry: R, st: RunState, i: int, vs: Seq<WindowedValueView>)
    requires
        0 <= i < st.ops.len(),
        st.ops[i] is Recording,
        receivers_of(st.ops[i]) == Seq::<Seq<usize>>::empty(),
    ensures
        ({
            let op = st.ops[i];
            let id = op->transform_id;
            let s1 = step_then_route(registry, st, i, (start_outcome(op).0, start_outcome(op).2), Seq::empty());
            let s2 = deliver_all(registry, s1, i, vs);
            let s3 = finish_then_route(
                registry,
                s2,
                i,
                (finish_outcome(registry, op).0, finish_outcome(registry, op).2),
                Seq::empty(),
            );
            &&& s3.ops == st.ops
            &&& s3.log == st.log + seq![start_line(id)] + recording_lines(id, vs) + seq![finish_line(id)]
        }),
{
    let op = st.ops[i];
    let id = op->transform_id;
    let s1 = step_then_route(registry, st, i, (start_outcome(op).0, start_outcome(op).2), Seq::empty());
    assert(st.ops.update(i, op) =~= st.ops);
    assert(s1.ops == st.ops);
    assert(s1.log == st.log + seq![start_line(id)]);
    lemma_recording_deliver_all(registry, s1, i, vs);
    let s2 = deliver_all(registry, s1, i, vs);
    assert(s2.ops[i] == op);
}

// ******* The recorded log only grows *******

/// `later` starts with `earlier`.
pub open spec fn extends(earlier: Seq<Seq<char>>, later: Seq<Seq<char>>) -> bool {
    earlier.len() <= later.len() && forall|k: int| 0 <= k < earlier.len() ==> #[trigger] later[k] == earlier[k]
}

/// Routing an element keeps every recorded line in place, appending only,
/// and keeps the number of operators.
pub proof fn lemma_deliver_extends_log<R: FnRegistry>(registry: R, st: RunState, i: int, v: WindowedValueView)
    ensures
        extends(st.log, deliver(registry, st, i, v).log),
        deliver(registry, st, i, v).ops.len() == st.ops.len(),
    decreases i + 1, 0int, 0int,
{
    if 0 <= i < st.ops.len() {
        let step = process_outcome(registry, st.ops[i], v);
        let st1 = RunState { ops: st.ops.update(i, step.0), log: st.log + step.2 };
        lemma_fan_outs_extends_log(registry, st1, step.1, targets(receivers_of(step.0)), i);
        assert(extends(st.log, st1.log));
    }
}

/// Routing several elements keeps every recorded line in place.
pub proof fn lemma_fan_outs_extends_log<R: FnRegistry>(
    registry: R,
    st: RunState,
    outs: Seq<WindowedValueView>,
    ts: Seq<usize>,
    bound: int,
)
    ensures
        extends(st.log, fan_outs(registry, st, outs, ts, bound).log),
        fan_outs(registry, st, outs, ts, bound).ops.len() == st.ops.len(),
    decreases bound, 1int, outs.len(),
{
    if outs.len() > 0 {
        let st1 = fan_targets(registry, st, outs[0], ts, bound);
        lemma_fan_targets_extends_log(registry, st, outs[0], ts, bound);
        lemma_fan_outs_extends_log(registry, st1, outs.drop_first(), ts, bound);
    }
}

/// Handing one element to several consumers keeps every recorded line in place.
pub proof fn lemma_fan_targets_extends_log<R: FnRegistry>(
    registry: R,
    st: RunState,
    v: WindowedValueView,
    ts: Seq<usize>,
    bound: int,
)
    ensures
        extends(st.log, fan_targets(registry, st, v, ts, bound).log),
        fan_targets(registry, st, v, ts, bound).ops.len() == st.ops.len(),
    decreases bound, 0int, ts.len(),
{
    if ts.len() > 0 {
        let st1 = if 0 <= ts[0] < bound {
            deliver(registry, st, ts[0] as int, v)
        } else {
            st
        };
        if 0 <= ts[0] < bound {
            lemma_deliver_extends_log(registry, st, ts[0] as int, v);
        }
        lemma_fan_targets_extends_log(registry, st1, v, ts.drop_first(), bound);
    }
}

} // verus!
