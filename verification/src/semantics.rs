//! What each operator does to its state, the elements it emits and the
//! lines it records, stated over views.
use vstd::prelude::*;
use crate::elements::{GlobalWindow, ValueView, WindowedValueView};
use crate::registry::FnRegistry;
use crate::text::debug_rendering;

verus! {

/// Values grouped under keys, in the order in which each key first arrived.
pub type Groups = Seq<(Seq<char>, Seq<ValueView>)>;

/// The state of an operator as the specifications see it.
pub enum OperatorView {
    Create { receivers: Seq<Seq<usize>>, data: Seq<Seq<char>> },
    Recording { transform_id: Seq<char>, receivers: Seq<Seq<usize>> },
    Partitioning,
    GroupByKey { receivers: Seq<Seq<usize>>, key_extractor: Seq<char>, groups: Groups },
    Impulse { receivers: Seq<Seq<usize>> },
    DataSource,
    ParDo { receivers: Seq<Seq<usize>>, do_fn: Seq<char> },
    Flatten { receivers: Seq<Seq<usize>> },
}

/// The operator kinds that have an implementation.
pub open spec fn runnable(op: OperatorView) -> bool {
    !(op is Partitioning) && !(op is DataSource)
}

/// The registry holds every function that the operator names.
pub open spec fn resolves<R: FnRegistry>(registry: R, op: OperatorView) -> bool {
    match op {
        OperatorView::GroupByKey { key_extractor, .. } => registry.has_key_extractor(key_extractor),
        OperatorView::ParDo { do_fn, .. } => registry.has_do_fn(do_fn),
        _ => true,
    }
}

/// The receivers of the operator's output, in order.
pub open spec fn receivers_of(op: OperatorView) -> Seq<Seq<usize>> {
    match op {
        OperatorView::Create { receivers, .. } => receivers,
        OperatorView::Recording { receivers, .. } => receivers,
        OperatorView::GroupByKey { receivers, .. } => receivers,
        OperatorView::Impulse { receivers } => receivers,
        OperatorView::ParDo { receivers, .. } => receivers,
        OperatorView::Flatten { receivers } => receivers,
        _ => Seq::empty(),
    }
}

/// Every consumer of every receiver, receiver by receiver.
pub open spec fn targets(receivers: Seq<Seq<usize>>) -> Seq<usize>
    decreases receivers.len(),
{
    if receivers.len() == 0 {
        Seq::empty()
    } else {
        targets(receivers.drop_last()) + receivers.last()
    }
}

// ******* Recorded lines *******

pub open spec fn start_line(transform_id: Seq<char>) -> Seq<char> {
    transform_id + ".start_bundle()"@
}

pub open spec fn finish_line(transform_id: Seq<char>) -> Seq<char> {
    transform_id + ".finish_bundle()"@
}

/// The text that a recorded element shows: its string, or `{any}` for any
/// other payload.
pub open spec fn shown_text(value: ValueView) -> Seq<char> {
    match value {
        ValueView::Text(s) => s,
        _ => "{any}"@,
    }
}

pub open spec fn process_line(transform_id: Seq<char>, value: ValueView) -> Seq<char> {
    transform_id + ".process("@ + debug_rendering(shown_text(value)) + ")"@
}

// ******* Grouping *******

/// The position of the group of `key`, if there is one.
pub open spec fn key_position(groups: Groups, key: Seq<char>) -> Option<int>
    decreases groups.len(),
{
    if groups.len() == 0 {
        None
    } else {
        match key_position(groups.drop_last(), key) {
            Some(i) => Some(i),
            None => if groups.last().0 == key {
                Some(groups.len() - 1)
            } else {
                None
            },
        }
    }
}

/// Adds `value` at the end of the group of `key`, opening the group when
/// the key is new.
pub open spec fn group_insert(groups: Groups, key: Seq<char>, value: ValueView) -> Groups {
    match key_position(groups, key) {
        Some(i) => groups.update(i, (key, groups[i].1.push(value))),
        None => groups.push((key, seq![value])),
    }
}

pub proof fn lemma_key_position(groups: Groups, key: Seq<char>)
    ensures
        match key_position(groups, key) {
            Some(i) => 0 <= i < groups.len() && groups[i].0 == key && forall|j: int|
                0 <= j < i ==> groups[j].0 != key,
            None => forall|j: int| 0 <= j < groups.len() ==> groups[j].0 != key,
        },
    decreases groups.len(),
{
    if groups.len() > 0 {
        let d = groups.drop_last();
        lemma_key_position(d, key);
        match key_position(d, key) {
            Some(i) => {
                assert(groups[i] == d[i]);
                assert forall|j: int| 0 <= j < i implies groups[j].0 != key by {
                    assert(groups[j] == d[j]);
                }
            },
            None => {
                assert forall|j: int| 0 <= j < d.len() implies groups[j].0 != key by {
                    assert(groups[j] == d[j]);
                }
            },
        }
    }
}

// ******* Steps *******

/// Elements stamped into the global window with an empty pane, carrying
/// `values` in order; their timestamps are whatever the clock gave.
pub open spec fn fresh_in_global_window(outs: Seq<WindowedValueView>, values: Seq<ValueView>) -> bool {
    &&& outs.len() == values.len()
    &&& forall|k: int|
        0 <= k < outs.len() ==> {
            &&& (#[trigger] outs[k]).windows == seq![GlobalWindow]
            &&& outs[k].pane_info == Seq::<u8>::empty()
            &&& outs[k].value == values[k]
        }
}

/// Starting a bundle: the new state, the payloads emitted (each in a fresh
/// global-window element) and the lines recorded.
pub open spec fn start_outcome(op: OperatorView) -> (OperatorView, Seq<ValueView>, Seq<Seq<char>>) {
    match op {
        OperatorView::Create { data, .. } => (op, data.map_values(|s: Seq<char>| ValueView::Text(s)), Seq::empty()),
        OperatorView::Recording { transform_id, .. } => (op, Seq::empty(), seq![start_line(transform_id)]),
        OperatorView::GroupByKey { receivers, key_extractor, .. } => (
            OperatorView::GroupByKey { receivers, key_extractor, groups: Seq::empty() },
            Seq::empty(),
            Seq::empty(),
        ),
        OperatorView::Impulse { .. } => (op, seq![ValueView::Bytes(Seq::empty())], Seq::empty()),
        _ => (op, Seq::empty(), Seq::empty()),
    }
}

/// Processing one element: the new state, the elements emitted and the
/// lines recorded.
pub open spec fn process_outcome<R: FnRegistry>(registry: R, op: OperatorView, v: WindowedValueView) -> (
    OperatorView,
    Seq<WindowedValueView>,
    Seq<Seq<char>>,
) {
    match op {
        OperatorView::Recording { transform_id, .. } => (op, seq![v], seq![process_line(transform_id, v.value)]),
        OperatorView::GroupByKey { receivers, key_extractor, groups } => {
            let kv = registry.extracted(key_extractor, v.value);
            (
                OperatorView::GroupByKey { receivers, key_extractor, groups: group_insert(groups, kv.0, kv.1) },
                Seq::empty(),
                Seq::empty(),
            )
        },
        OperatorView::ParDo { do_fn, .. } => (
            op,
            registry.do_fn_outputs(do_fn, v.value).map_values(|x: ValueView| WindowedValueView { value: x, ..v }),
            Seq::empty(),
        ),
        OperatorView::Flatten { .. } => (op, seq![v], Seq::empty()),
        _ => (op, Seq::empty(), Seq::empty()),
    }
}

/// Each of `values`, in order, repeated once for each of `n` receivers.
pub open spec fn per_receiver(values: Seq<ValueView>, n: nat) -> Seq<ValueView>
    decreases values.len(),
{
    if values.len() == 0 {
        Seq::empty()
    } else {
        per_receiver(values.drop_last(), n) + Seq::new(n, |_j: int| values.last())
    }
}

/// The element a group-by-key operator builds for each group.
pub open spec fn recombined_groups<R: FnRegistry>(registry: R, key_extractor: Seq<char>, groups: Groups) -> Seq<ValueView> {
    groups.map_values(|g: (Seq<char>, Seq<ValueView>)| registry.recombined(key_extractor, g.0, g.1))
}

/// Finishing a bundle: the new state, the payloads emitted (each in a fresh
/// global-window element) and the lines recorded. A group-by-key operator
/// builds a separate element of each group for each of its receivers, group
/// by group, receiver by receiver.
pub open spec fn finish_outcome<R: FnRegistry>(registry: R, op: OperatorView) -> (OperatorView, Seq<ValueView>, Seq<Seq<char>>) {
    match op {
        OperatorView::Recording { transform_id, .. } => (op, Seq::empty(), seq![finish_line(transform_id)]),
        OperatorView::GroupByKey { receivers, key_extractor, groups } => (
            op,
            per_receiver(recombined_groups(registry, key_extractor, groups), receivers.len()),
            Seq::empty(),
        ),
        _ => (op, Seq::empty(), Seq::empty()),
    }
}

// ******* What a step leaves unchanged *******

/// The same kind, receivers and named function; only grouped values may differ.
pub open spec fn same_shape(a: OperatorView, b: OperatorView) -> bool {
    match (a, b) {
        (
            OperatorView::GroupByKey { receivers: r1, key_extractor: k1, .. },
            OperatorView::GroupByKey { receivers: r2, key_extractor: k2, .. },
        ) => r1 == r2 && k1 == k2,
        _ => a == b,
    }
}

/// Operators of the same shape have the same receivers, both run or both
/// do not, and need the same registered functions.
pub proof fn lemma_same_shape<R: FnRegistry>(registry: R, a: OperatorView, b: OperatorView)
    requires
        same_shape(a, b),
    ensures
        receivers_of(a) == receivers_of(b),
        runnable(a) == runnable(b),
        resolves(registry, a) == resolves(registry, b),
        same_shape(b, a),
{
}

/// No step changes an operator's shape.
pub proof fn lemma_steps_keep_shape<R: FnRegistry>(registry: R, op: OperatorView, v: WindowedValueView)
    ensures
        same_shape(op, start_outcome(op).0),
        same_shape(op, process_outcome(registry, op, v).0),
        same_shape(op, finish_outcome(registry, op).0),
{
}

} // verus!
