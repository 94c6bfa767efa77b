//! The operators that execute the transforms of a bundle.
use vstd::prelude::*;
use vstd::string::StringExecFns;
use crate::elements::{view_values, Value, WindowedValue, WindowedValueView};
use crate::payload::{decode_name, decode_string_list, json_string_list, texts};
use crate::proto::{first_named, lemma_first_named, find_named, PTransform, ProcessBundleDescriptor};
use crate::registry::FnRegistry;
use crate::semantics::{
    fresh_in_global_window, group_insert, receivers_of, targets, key_position, lemma_key_position, process_outcome,
    resolves, runnable, start_outcome, finish_outcome, Groups, OperatorView, per_receiver,
    recombined_groups,
};
use crate::text::{render_debug, same_text};
use crate::urns::{
    CREATE_URN, DATA_INPUT_URN, FLATTEN_URN, GROUP_BY_KEY_URN, IMPULSE_URN, PARTITION_URN, PAR_DO_URN,
    RECORDING_URN,
};
use vstd::utf8::{decode_utf8, valid_utf8};

verus! {

// ******* Receivers and the operator context *******

/// The consumers of one collection: positions of operators in the bundle.
pub struct Receiver {
    pub operators: Vec<usize>,
}

impl View for Receiver {
    type V = Seq<usize>;

    open spec fn view(&self) -> Seq<usize> {
        self.operators@
    }
}

/// The consumer lists of a sequence of receivers.
pub open spec fn receivers_view(rs: Seq<Receiver>) -> Seq<Seq<usize>> {
    rs.map_values(|r: Receiver| r@)
}

impl Receiver {
    pub fn new(operators: Vec<usize>) -> (r: Receiver)
        ensures
            r@ == operators@,
    {
        Receiver { operators }
    }

    /// A receiver with the same consumers.
    pub fn duplicate(&self) -> (r: Receiver)
        ensures
            r@ == self@,
    {
        let mut operators: Vec<usize> = Vec::new();
        let mut i: usize = 0;
        while i < self.operators.len()
            invariant
                0 <= i <= self.operators@.len(),
                operators@ == self.operators@.subrange(0, i as int),
            decreases self.operators@.len() - i,
        {
            operators.push(self.operators[i]);
            i = i + 1;
        }
        proof {
            assert(operators@ =~= self.operators@);
        }
        Receiver { operators }
    }
}

/// What an operator is built from: the bundle's transforms and the receiver
/// registered for each collection.
pub struct OperatorContext {
    pub descriptor: ProcessBundleDescriptor,
    pub receivers: Vec<(String, Receiver)>,
}

/// The consumers of collection `pcollection`: those of its first registered
/// receiver, none when no receiver is registered.
pub open spec fn receiver_ops(entries: Seq<(String, Receiver)>, pcollection: Seq<char>) -> Seq<usize> {
    match first_named(entries, pcollection) {
        Some(i) => entries[i].1@,
        None => Seq::empty(),
    }
}

/// The receivers of a transform's outputs, in the order of its outputs.
pub open spec fn output_receivers(entries: Seq<(String, Receiver)>, outputs: Seq<(String, String)>) -> Seq<Seq<usize>> {
    outputs.map_values(|o: (String, String)| receiver_ops(entries, o.1@))
}

impl OperatorContext {
    /// The receiver of collection `pcollection_id`.
    pub fn get_receiver(&self, pcollection_id: &str) -> (r: Receiver)
        ensures
            r@ == receiver_ops(self.receivers@, pcollection_id@),
    {
        proof {
            lemma_first_named(self.receivers@, pcollection_id@);
        }
        match find_named(&self.receivers, pcollection_id) {
            Some(i) => self.receivers[i].1.duplicate(),
            None => Receiver::new(Vec::new()),
        }
    }

    /// The receivers of the outputs of `transform`.
    pub fn output_receivers(&self, transform: &PTransform) -> (r: Vec<Receiver>)
        ensures
            receivers_view(r@) == output_receivers(self.receivers@, transform.outputs@),
    {
        let mut out: Vec<Receiver> = Vec::new();
        let mut i: usize = 0;
        while i < transform.outputs.len()
            invariant
                0 <= i <= transform.outputs@.len(),
                out@.len() == i,
                forall|k: int| 0 <= k < i ==> (#[trigger] out@[k])@ == receiver_ops(self.receivers@, transform.outputs@[k].1@),
            decreases transform.outputs@.len() - i,
        {
            let rec = self.get_receiver(transform.outputs[i].1.as_str());
            out.push(rec);
            i = i + 1;
        }
        proof {
            assert(receivers_view(out@) =~= output_receivers(self.receivers@, transform.outputs@));
        }
        out
    }
}

// ******* What an operator step yields *******

/// The elements an operator emits to its receivers, and the lines it records.
pub struct Emitted {
    pub values: Vec<WindowedValue>,
    pub log: Vec<String>,
}

pub open spec fn elements_view(ws: Seq<WindowedValue>) -> Seq<WindowedValueView> {
    ws.map_values(|w: WindowedValue| w@)
}

impl View for Emitted {
    type V = (Seq<WindowedValueView>, Seq<Seq<char>>);

    open spec fn view(&self) -> (Seq<WindowedValueView>, Seq<Seq<char>>) {
        (elements_view(self.values@), texts(self.log@))
    }
}

impl Emitted {
    fn nothing() -> (r: Emitted)
        ensures
            r@.0 == Seq::<WindowedValueView>::empty(),
            r@.1 == Seq::<Seq<char>>::empty(),
    {
        let r = Emitted { values: Vec::new(), log: Vec::new() };
        proof {
            assert(r@.0 =~= Seq::<WindowedValueView>::empty());
            assert(r@.1 =~= Seq::<Seq<char>>::empty());
        }
        r
    }

    fn one_value(v: WindowedValue) -> (r: Emitted)
        ensures
            r@.0 == seq![v@],
            r@.1 == Seq::<Seq<char>>::empty(),
    {
        let mut values: Vec<WindowedValue> = Vec::new();
        values.push(v);
        let r = Emitted { values, log: Vec::new() };
        proof {
            assert(r@.0 =~= seq![v@]);
            assert(r@.1 =~= Seq::<Seq<char>>::empty());
        }
        r
    }

    fn one_line(line: String) -> (r: Emitted)
        ensures
            r@.0 == Seq::<WindowedValueView>::empty(),
            r@.1 == seq![line@],
    {
        let mut log: Vec<String> = Vec::new();
        log.push(line);
        let r = Emitted { values: Vec::new(), log };
        proof {
            assert(r@.0 =~= Seq::<WindowedValueView>::empty());
            assert(r@.1 =~= seq![line@]);
        }
        r
    }
}

// ******* The operator interface *******

/// The steps of an operator within a bundle. Each step yields what the
/// operator emits and records; the bundle routes the emitted elements.
pub trait OperatorI {
    /// The operator's state.
    spec fn state(&self) -> OperatorView;

    fn start_bundle(&mut self) -> (out: Emitted)
        requires
            runnable(old(self).state()),
        ensures
            final(self).state() == start_outcome(old(self).state()).0,
            fresh_in_global_window(out@.0, start_outcome(old(self).state()).1),
            out@.1 == start_outcome(old(self).state()).2,
    ;

    fn process<R: FnRegistry>(&mut self, value: &WindowedValue, registry: &R) -> (out: Emitted)
        requires
            runnable(old(self).state()),
            resolves(*registry, old(self).state()),
        ensures
            (final(self).state(), out@.0, out@.1) == process_outcome(*registry, old(self).state(), value@),
    ;

    fn finish_bundle<R: FnRegistry>(&mut self, registry: &R) -> (out: Emitted)
        requires
            runnable(old(self).state()),
            resolves(*registry, old(self).state()),
        ensures
            final(self).state() == finish_outcome(*registry, old(self).state()).0,
            fresh_in_global_window(out@.0, finish_outcome(*registry, old(self).state()).1),
            out@.1 == finish_outcome(*registry, old(self).state()).2,
    ;
}

// ******* Test operators *******

/// Emits a fixed list of strings at the start of each bundle.
pub struct CreateOperator {
    pub receivers: Vec<Receiver>,
    pub data: Vec<String>,
}

impl CreateOperator {
    /// Builds the operator from a transform whose payload is a JSON array of strings.
    pub fn new(transform: &PTransform, context: &OperatorContext) -> (r: CreateOperator)
        requires
            transform.spec is Some,
            json_string_list(transform.spec->0.payload@) is Some,
        ensures
            r.state() == (OperatorView::Create {
                receivers: output_receivers(context.receivers@, transform.outputs@),
                data: json_string_list(transform.spec->0.payload@)->0,
            }),
    {
        let spec = transform.spec.as_ref().unwrap();
        let data = decode_string_list(&spec.payload).unwrap();
        let receivers = context.output_receivers(transform);
        CreateOperator { receivers, data }
    }
}

impl OperatorI for CreateOperator {
    open spec fn state(&self) -> OperatorView {
        OperatorView::Create { receivers: receivers_view(self.receivers@), data: texts(self.data@) }
    }

    fn start_bundle(&mut self) -> (out: Emitted) {
        let mut values: Vec<WindowedValue> = Vec::new();
        let mut i: usize = 0;
        while i < self.data.len()
            invariant
                0 <= i <= self.data@.len(),
                values@.len() == i,
                forall|k: int|
                    0 <= k < i ==> {
                        &&& crate::elements::in_global_window_shape(#[trigger] values@[k])
                        &&& values@[k]@.value == crate::elements::ValueView::Text(self.data@[k]@)
                    },
            decreases self.data@.len() - i,
        {
            let wv = WindowedValue::in_global_window(Value::Text(self.data[i].clone()));
            values.push(wv);
            i = i + 1;
        }
        let out = Emitted { values, log: Vec::new() };
        proof {
            assert(out@.1 =~= Seq::<Seq<char>>::empty());
        }
        out
    }

    fn process<R: FnRegistry>(&mut self, value: &WindowedValue, registry: &R) -> (out: Emitted) {
        Emitted::nothing()
    }

    fn finish_bundle<R: FnRegistry>(&mut self, registry: &R) -> (out: Emitted) {
        Emitted::nothing()
    }
}

/// Records each call it receives and forwards every element unchanged.
pub struct RecordingOperator {
    pub transform_id: String,
    pub receivers: Vec<Receiver>,
}

impl RecordingOperator {
    pub fn new(transform_id: &str, transform: &PTransform, context: &OperatorContext) -> (r: RecordingOperator)
        ensures
            r.state() == (OperatorView::Recording {
                transform_id: transform_id@,
                receivers: output_receivers(context.receivers@, transform.outputs@),
            }),
    {
        let receivers = context.output_receivers(transform);
        RecordingOperator { transform_id: transform_id.to_owned(), receivers }
    }
}

impl OperatorI for RecordingOperator {
    open spec fn state(&self) -> OperatorView {
        OperatorView::Recording { transform_id: self.transform_id@, receivers: receivers_view(self.receivers@) }
    }

    fn start_bundle(&mut self) -> (out: Emitted) {
        let mut line = self.transform_id.clone();
        line.append(".start_bundle()");
        Emitted::one_line(line)
    }

    fn process<R: FnRegistry>(&mut self, value: &WindowedValue, registry: &R) -> (out: Emitted) {
        let shown: String = match &value.value {
            Value::Text(s) => s.clone(),
            _ => "{any}".to_owned(),
        };
        let rendered = render_debug(shown.as_str());
        let mut line = self.transform_id.clone();
        line.append(".process(");
        line.append(rendered.as_str());
        line.append(")");
        let mut log: Vec<String> = Vec::new();
        log.push(line);
        let mut values: Vec<WindowedValue> = Vec::new();
        values.push(value.duplicate());
        let out = Emitted { values, log };
        proof {
            assert(out@.0 =~= seq![value@]);
            assert(out@.1 =~= seq![line@]);
        }
        out
    }

    fn finish_bundle<R: FnRegistry>(&mut self, registry: &R) -> (out: Emitted) {
        let mut line = self.transform_id.clone();
        line.append(".finish_bundle()");
        Emitted::one_line(line)
    }
}

/// Emits one empty element at the start of each bundle.
pub struct ImpulsePerBundleOperator {
    pub receivers: Vec<Receiver>,
}

impl ImpulsePerBundleOperator {
    pub fn new(transform: &PTransform, context: &OperatorContext) -> (r: ImpulsePerBundleOperator)
        ensures
            r.state() == (OperatorView::Impulse {
                receivers: output_receivers(context.receivers@, transform.outputs@),
            }),
    {
        ImpulsePerBundleOperator { receivers: context.output_receivers(transform) }
    }
}

impl OperatorI for ImpulsePerBundleOperator {
    open spec fn state(&self) -> OperatorView {
        OperatorView::Impulse { receivers: receivers_view(self.receivers@) }
    }

    fn start_bundle(&mut self) -> (out: Emitted) {
        let wv = WindowedValue::in_global_window(Value::Bytes(Vec::new()));
        let out = Emitted::one_value(wv);
        proof {
            assert(wv.value@ == crate::elements::ValueView::Bytes(Seq::empty()));
        }
        out
    }

    fn process<R: FnRegistry>(&mut self, value: &WindowedValue, registry: &R) -> (out: Emitted) {
        Emitted::nothing()
    }

    fn finish_bundle<R: FnRegistry>(&mut self, registry: &R) -> (out: Emitted) {
        Emitted::nothing()
    }
}

/// Forwards every element unchanged.
pub struct FlattenOperator {
    pub receivers: Vec<Receiver>,
}

impl FlattenOperator {
    pub fn new(transform: &PTransform, context: &OperatorContext) -> (r: FlattenOperator)
        ensures
            r.state() == (OperatorView::Flatten {
                receivers: output_receivers(context.receivers@, transform.outputs@),
            }),
    {
        FlattenOperator { receivers: context.output_receivers(transform) }
    }
}

impl OperatorI for FlattenOperator {
    open spec fn state(&self) -> OperatorView {
        OperatorView::Flatten { receivers: receivers_view(self.receivers@) }
    }

    fn start_bundle(&mut self) -> (out: Emitted) {
        Emitted::nothing()
    }

    fn process<R: FnRegistry>(&mut self, value: &WindowedValue, registry: &R) -> (out: Emitted) {
        Emitted::one_value(value.duplicate())
    }

    fn finish_bundle<R: FnRegistry>(&mut self, registry: &R) -> (out: Emitted) {
        Emitted::nothing()
    }
}

/// The groups that the grouped values denote.
pub open spec fn groups_view(g: Seq<(String, Vec<Value>)>) -> Groups {
    g.map_values(|e: (String, Vec<Value>)| (e.0@, view_values(e.1@)))
}

/// Finds the group of `key`.
fn find_group(groups: &Vec<(String, Vec<Value>)>, key: &str) -> (r: Option<usize>)
    ensures
        match r {
            Some(i) => key_position(groups_view(groups@), key@) == Some(i as int),
            None => key_position(groups_view(groups@), key@) is None,
        },
{
    let ghost gv = groups_view(groups@);
    proof {
        lemma_key_position(gv, key@);
    }
    let mut i: usize = 0;
    while i < groups.len()
        invariant
            0 <= i <= groups@.len(),
            gv == groups_view(groups@),
            forall|j: int| 0 <= j < i ==> gv[j].0 != key@,
            match key_position(gv, key@) {
                Some(k) => 0 <= k < gv.len() && gv[k].0 == key@ && forall|j: int|
                    0 <= j < k ==> gv[j].0 != key@,
                None => forall|j: int| 0 <= j < gv.len() ==> gv[j].0 != key@,
            },
        decreases groups@.len() - i,
    {
        if same_text(groups[i].0.as_str(), key) {
            proof {
                assert(gv[i as int].0 == groups@[i as int].0@);
            }
            return Some(i);
        }
        i = i + 1;
    }
    None
}

/// Groups the elements of a bundle by key and emits one element per key
/// when the bundle finishes.
pub struct GroupByKeyWithinBundleOperator {
    pub receivers: Vec<Receiver>,
    /// The name of the key extractor in the registry.
    pub key_extractor: String,
    pub grouped_values: Vec<(String, Vec<Value>)>,
}

impl GroupByKeyWithinBundleOperator {
    /// Builds the operator from a transform whose payload names a registered key extractor.
    pub fn new<R: FnRegistry>(transform: &PTransform, context: &OperatorContext, registry: &R) -> (r: GroupByKeyWithinBundleOperator)
        requires
            transform.spec is Some,
            valid_utf8(transform.spec->0.payload@),
            registry.has_key_extractor(decode_utf8(transform.spec->0.payload@)),
        ensures
            r.state() == (OperatorView::GroupByKey {
                receivers: output_receivers(context.receivers@, transform.outputs@),
                key_extractor: decode_utf8(transform.spec->0.payload@),
                groups: Seq::empty(),
            }),
    {
        let receivers = context.output_receivers(transform);
        let spec = transform.spec.as_ref().unwrap();
        let key_extractor = decode_name(&spec.payload).unwrap();
        let r = GroupByKeyWithinBundleOperator { receivers, key_extractor, grouped_values: Vec::new() };
        proof {
            assert(groups_view(r.grouped_values@) =~= Seq::empty());
        }
        r
    }
}

impl GroupByKeyWithinBundleOperator {
    /// What the operator shows when it is debug-printed.
    pub fn describe(&self) -> (r: String)
        ensures
            r@ == "GroupByKeyWithinBundleOperator"@,
    {
        "GroupByKeyWithinBundleOperator".to_owned()
    }
}

impl OperatorI for GroupByKeyWithinBundleOperator {
    open spec fn state(&self) -> OperatorView {
        OperatorView::GroupByKey {
            receivers: receivers_view(self.receivers@),
            key_extractor: self.key_extractor@,
            groups: groups_view(self.grouped_values@),
        }
    }

    fn start_bundle(&mut self) -> (out: Emitted) {
        self.grouped_values = Vec::new();
        proof {
            assert(groups_view(self.grouped_values@) =~= Seq::empty());
        }
        Emitted::nothing()
    }

    fn process<R: FnRegistry>(&mut self, value: &WindowedValue, registry: &R) -> (out: Emitted) {
        let (key, v) = registry.extract(self.key_extractor.as_str(), &value.value);
        let ghost old_groups = groups_view(self.grouped_values@);
        proof {
            lemma_key_position(old_groups, key@);
        }
        match find_group(&self.grouped_values, key.as_str()) {
            Some(i) => {
                let ghost old_entry = self.grouped_values@[i as int];
                self.grouped_values[i].1.push(v);
                proof {
                    crate::elements::lemma_view_values_push(old_entry.1@, v);
                    assert(self.grouped_values@[i as int].0 == old_entry.0);
                    assert(old_groups[i as int] == (old_entry.0@, view_values(old_entry.1@)));
                    assert(groups_view(self.grouped_values@) =~= group_insert(old_groups, key@, v@));
                }
            },
            None => {
                let mut vs: Vec<Value> = Vec::new();
                vs.push(v);
                self.grouped_values.push((key, vs));
                proof {
                    crate::elements::lemma_view_values_push(Seq::empty(), v);
                    assert(Seq::<Value>::empty().push(v) =~= vs@);
                    assert(view_values(Seq::<Value>::empty()) =~= Seq::empty());
                    assert(seq![v@] =~= Seq::<crate::elements::ValueView>::empty().push(v@));
                    assert(groups_view(self.grouped_values@) =~= group_insert(old_groups, key@, v@));
                }
            },
        }
        Emitted::nothing()
    }

    fn finish_bundle<R: FnRegistry>(&mut self, registry: &R) -> (out: Emitted) {
        let mut values: Vec<WindowedValue> = Vec::new();
        let ghost gv = groups_view(self.grouped_values@);
        let ghost rec = recombined_groups(*registry, self.key_extractor@, gv);
        let n = self.receivers.len();
        let mut i: usize = 0;
        while i < self.grouped_values.len()
            invariant
                0 <= i <= self.grouped_values@.len(),
                gv == groups_view(self.grouped_values@),
                rec == recombined_groups(*registry, self.key_extractor@, gv),
                n == self.receivers@.len(),
                registry.has_key_extractor(self.key_extractor@),
                values@.len() == per_receiver(rec.subrange(0, i as int), n as nat).len(),
                forall|k: int|
                    0 <= k < values@.len() ==> {
                        &&& crate::elements::in_global_window_shape(#[trigger] values@[k])
                        &&& values@[k]@.value == per_receiver(rec.subrange(0, i as int), n as nat)[k]
                    },
            decreases self.grouped_values@.len() - i,
        {
            let ghost before = per_receiver(rec.subrange(0, i as int), n as nat);
            let mut r: usize = 0;
            while r < n
                invariant
                    0 <= i < self.grouped_values@.len(),
                    0 <= r <= n,
                    gv == groups_view(self.grouped_values@),
                    rec == recombined_groups(*registry, self.key_extractor@, gv),
                    registry.has_key_extractor(self.key_extractor@),
                    values@.len() == before.len() + r,
                    forall|k: int|
                        0 <= k < values@.len() ==> {
                            &&& crate::elements::in_global_window_shape(#[trigger] values@[k])
                            &&& values@[k]@.value == (before + Seq::new(r as nat, |_j: int| rec[i as int]))[k]
                        },
                decreases n - r,
            {
                let element = registry.recombine(
                    self.key_extractor.as_str(),
                    self.grouped_values[i].0.as_str(),
                    &self.grouped_values[i].1,
                );
                proof {
                    assert(gv[i as int] == (self.grouped_values@[i as int].0@, view_values(self.grouped_values@[i as int].1@)));
                    assert(element@ == rec[i as int]);
                }
                values.push(WindowedValue::in_global_window(element));
                proof {
                    assert(before + Seq::new((r + 1) as nat, |_j: int| rec[i as int])
                        =~= (before + Seq::new(r as nat, |_j: int| rec[i as int])).push(rec[i as int]));
                }
                r = r + 1;
            }
            proof {
                assert(rec.subrange(0, i + 1).drop_last() =~= rec.subrange(0, i as int));
                assert(rec.subrange(0, i + 1).last() == rec[i as int]);
            }
            i = i + 1;
        }
        proof {
            assert(rec.subrange(0, i as int) =~= rec);
        }
        let out = Emitted { values, log: Vec::new() };
        proof {
            assert(out@.1 =~= Seq::<Seq<char>>::empty());
        }
        out
    }
}

/// Applies a registered per-element function and emits its outputs in the
/// windows, at the timestamp and in the pane of the input.
pub struct ParDoOperator {
    pub receivers: Vec<Receiver>,
    /// The name of the per-element function in the registry.
    pub do_fn: String,
}

impl ParDoOperator {
    /// Builds the operator from a transform whose payload names a registered function.
    pub fn new<R: FnRegistry>(transform: &PTransform, context: &OperatorContext, registry: &R) -> (r: ParDoOperator)
        requires
            transform.spec is Some,
            valid_utf8(transform.spec->0.payload@),
            registry.has_do_fn(decode_utf8(transform.spec->0.payload@)),
        ensures
            r.state() == (OperatorView::ParDo {
                receivers: output_receivers(context.receivers@, transform.outputs@),
                do_fn: decode_utf8(transform.spec->0.payload@),
            }),
    {
        let receivers = context.output_receivers(transform);
        let spec = transform.spec.as_ref().unwrap();
        let do_fn = decode_name(&spec.payload).unwrap();
        ParDoOperator { receivers, do_fn }
    }
}

impl ParDoOperator {
    /// What the operator shows when it is debug-printed.
    pub fn describe(&self) -> (r: String)
        ensures
            r@ == "ParDoOperator"@,
    {
        "ParDoOperator".to_owned()
    }
}

impl OperatorI for ParDoOperator {
    open spec fn state(&self) -> OperatorView {
        OperatorView::ParDo { receivers: receivers_view(self.receivers@), do_fn: self.do_fn@ }
    }

    fn start_bundle(&mut self) -> (out: Emitted) {
        Emitted::nothing()
    }

    fn process<R: FnRegistry>(&mut self, value: &WindowedValue, registry: &R) -> (out: Emitted) {
        let outputs = registry.apply_do_fn(self.do_fn.as_str(), &value.value);
        let ghost expected = registry.do_fn_outputs(self.do_fn@, value.value@);
        proof {
            crate::elements::lemma_view_values_len(outputs@);
        }
        let mut values: Vec<WindowedValue> = Vec::new();
        let mut i: usize = 0;
        while i < outputs.len()
            invariant
                0 <= i <= outputs@.len(),
                view_values(outputs@) == expected,
                expected.len() == outputs@.len(),
                values@.len() == i,
                forall|k: int|
                    0 <= k < i ==> (#[trigger] values@[k])@ == (WindowedValueView { value: expected[k], ..value@ }),
            decreases outputs@.len() - i,
        {
            proof {
                crate::elements::lemma_view_values_index(outputs@, i as int);
            }
            values.push(value.with_value(outputs[i].duplicate()));
            i = i + 1;
        }
        let out = Emitted { values, log: Vec::new() };
        proof {
            assert(out@.0 =~= expected.map_values(|x: crate::elements::ValueView| WindowedValueView { value: x, ..value@ }));
            assert(out@.1 =~= Seq::<Seq<char>>::empty());
        }
        out
    }

    fn finish_bundle<R: FnRegistry>(&mut self, registry: &R) -> (out: Emitted) {
        Emitted::nothing()
    }
}

// ******* The operator kinds *******

/// The kinds of operator, without their state.
#[derive(Clone, Copy, Debug, PartialEq, Eq, Structural)]
pub enum OperatorDiscriminants {
    Create,
    Recording,
    _Partitioning,
    GroupByKey,
    Impulse,
    _DataSource,
    ParDo,
    Flatten,
}

/// The operator kind that executes transforms with the given URN.
pub open spec fn discriminant_for_urn(urn: Seq<char>) -> Option<OperatorDiscriminants> {
    if urn == CREATE_URN@ {
        Some(OperatorDiscriminants::Create)
    } else if urn == RECORDING_URN@ {
        Some(OperatorDiscriminants::Recording)
    } else if urn == PARTITION_URN@ {
        Some(OperatorDiscriminants::_Partitioning)
    } else if urn == IMPULSE_URN@ {
        Some(OperatorDiscriminants::Impulse)
    } else if urn == GROUP_BY_KEY_URN@ {
        Some(OperatorDiscriminants::GroupByKey)
    } else if urn == DATA_INPUT_URN@ {
        Some(OperatorDiscriminants::_DataSource)
    } else if urn == PAR_DO_URN@ {
        Some(OperatorDiscriminants::ParDo)
    } else if urn == FLATTEN_URN@ {
        Some(OperatorDiscriminants::Flatten)
    } else {
        None
    }
}

/// Looks up the operator kind for a URN.
pub fn operator_discriminant_for_urn(urn: &str) -> (r: Option<OperatorDiscriminants>)
    ensures
        r == discriminant_for_urn(urn@),
{
    if same_text(urn, CREATE_URN) {
        Some(OperatorDiscriminants::Create)
    } else if same_text(urn, RECORDING_URN) {
        Some(OperatorDiscriminants::Recording)
    } else if same_text(urn, PARTITION_URN) {
        Some(OperatorDiscriminants::_Partitioning)
    } else if same_text(urn, IMPULSE_URN) {
        Some(OperatorDiscriminants::Impulse)
    } else if same_text(urn, GROUP_BY_KEY_URN) {
        Some(OperatorDiscriminants::GroupByKey)
    } else if same_text(urn, DATA_INPUT_URN) {
        Some(OperatorDiscriminants::_DataSource)
    } else if same_text(urn, PAR_DO_URN) {
        Some(OperatorDiscriminants::ParDo)
    } else if same_text(urn, FLATTEN_URN) {
        Some(OperatorDiscriminants::Flatten)
    } else {
        None
    }
}

/// An operator of any kind. The two kinds whose names start with an
/// underscore have no implementation.
pub enum Operator {
    Create(CreateOperator),
    Recording(RecordingOperator),
    _Partitioning,
    GroupByKey(GroupByKeyWithinBundleOperator),
    Impulse(ImpulsePerBundleOperator),
    _DataSource,
    ParDo(ParDoOperator),
    Flatten(FlattenOperator),
}

impl Operator {
    /// Builds an operator of the given kind; only `Create` operators are
    /// built this way.
    pub fn new(transform: &PTransform, context: &OperatorContext, operator_discriminant: OperatorDiscriminants) -> (r: Operator)
        requires
            operator_discriminant == OperatorDiscriminants::Create,
            transform.spec is Some,
            json_string_list(transform.spec->0.payload@) is Some,
        ensures
            r.state() == (OperatorView::Create {
                receivers: output_receivers(context.receivers@, transform.outputs@),
                data: json_string_list(transform.spec->0.payload@)->0,
            }),
    {
        Operator::Create(CreateOperator::new(transform, context))
    }
}

/// Why `Operator::new` cannot build an operator of kind `operator_discriminant`
/// from `transform`, if it cannot.
pub open spec fn new_error(transform: PTransform, operator_discriminant: OperatorDiscriminants) -> Option<CreateError> {
    if operator_discriminant != OperatorDiscriminants::Create {
        Some(CreateError::Unsupported)
    } else if transform.spec is None {
        Some(CreateError::MissingSpec)
    } else if json_string_list(transform.spec->0.payload@) is None {
        Some(CreateError::InvalidPayload)
    } else {
        None
    }
}

impl Operator {
    /// Builds an operator of the given kind, or says why it cannot.
    pub fn try_new(transform: &PTransform, context: &OperatorContext, operator_discriminant: OperatorDiscriminants) -> (r: Result<Operator, CreateError>)
        ensures
            match r {
                Ok(op) => new_error(*transform, operator_discriminant) is None && op.state() == (OperatorView::Create {
                    receivers: output_receivers(context.receivers@, transform.outputs@),
                    data: json_string_list(transform.spec->0.payload@)->0,
                }),
                Err(e) => new_error(*transform, operator_discriminant) == Some(e),
            },
    {
        match operator_discriminant {
            OperatorDiscriminants::Create => {},
            _ => return Err(CreateError::Unsupported),
        }
        let spec = match transform.spec.as_ref() {
            Some(s) => s,
            None => return Err(CreateError::MissingSpec),
        };
        if decode_string_list(&spec.payload).is_none() {
            return Err(CreateError::InvalidPayload);
        }
        Ok(Operator::new(transform, context, operator_discriminant))
    }
}

impl OperatorI for Operator {
    open spec fn state(&self) -> OperatorView {
        match self {
            Operator::Create(op) => op.state(),
            Operator::Recording(op) => op.state(),
            Operator::_Partitioning => OperatorView::Partitioning,
            Operator::GroupByKey(op) => op.state(),
            Operator::Impulse(op) => op.state(),
            Operator::_DataSource => OperatorView::DataSource,
            Operator::ParDo(op) => op.state(),
            Operator::Flatten(op) => op.state(),
        }
    }

    fn start_bundle(&mut self) -> (out: Emitted) {
        match self {
            Operator::Create(op) => op.start_bundle(),
            Operator::Recording(op) => op.start_bundle(),
            Operator::GroupByKey(op) => op.start_bundle(),
            Operator::Impulse(op) => op.start_bundle(),
            Operator::ParDo(op) => op.start_bundle(),
            Operator::Flatten(op) => op.start_bundle(),
            Operator::_Partitioning => vstd::pervasive::unreached(),
            Operator::_DataSource => vstd::pervasive::unreached(),
        }
    }

    fn process<R: FnRegistry>(&mut self, value: &WindowedValue, registry: &R) -> (out: Emitted) {
        match self {
            Operator::Create(op) => op.process(value, registry),
            Operator::Recording(op) => op.process(value, registry),
            Operator::GroupByKey(op) => op.process(value, registry),
            Operator::Impulse(op) => op.process(value, registry),
            Operator::ParDo(op) => op.process(value, registry),
            Operator::Flatten(op) => op.process(value, registry),
            Operator::_Partitioning => vstd::pervasive::unreached(),
            Operator::_DataSource => vstd::pervasive::unreached(),
        }
    }

    fn finish_bundle<R: FnRegistry>(&mut self, registry: &R) -> (out: Emitted) {
        match self {
            Operator::Create(op) => op.finish_bundle(registry),
            Operator::Recording(op) => op.finish_bundle(registry),
            Operator::GroupByKey(op) => op.finish_bundle(registry),
            Operator::Impulse(op) => op.finish_bundle(registry),
            Operator::ParDo(op) => op.finish_bundle(registry),
            Operator::Flatten(op) => op.finish_bundle(registry),
            Operator::_Partitioning => vstd::pervasive::unreached(),
            Operator::_DataSource => vstd::pervasive::unreached(),
        }
    }
}

// ******* Building operators from the bundle descriptor *******

/// Why an operator cannot be built for a transform.
#[derive(Clone, Copy, Debug, PartialEq, Eq, Structural)]
pub enum CreateError {
    /// No transform has the requested id.
    TransformNotFound,
    /// The transform has no function spec.
    MissingSpec,
    /// No operator kind executes the transform's URN.
    UnknownUrn,
    /// The operator kind has no implementation.
    Unsupported,
    /// The payload is not what the operator kind reads.
    InvalidPayload,
    /// The payload names a function that the registry does not hold.
    UnknownFunction,
}

/// The operator that the bundle's transform `transform_id` becomes, or why
/// none can be built.
pub open spec fn creation<R: FnRegistry>(registry: R, context: OperatorContext, transform_id: Seq<char>) -> Result<OperatorView, CreateError> {
    match first_named(context.descriptor.transforms@, transform_id) {
        None => Err(CreateError::TransformNotFound),
        Some(i) => {
            let t = context.descriptor.transforms@[i].1;
            let receivers = output_receivers(context.receivers@, t.outputs@);
            match t.spec {
                None => Err(CreateError::MissingSpec),
                Some(spec) => match discriminant_for_urn(spec.urn@) {
                    None => Err(CreateError::UnknownUrn),
                    Some(d) => match d {
                        OperatorDiscriminants::Create => match json_string_list(spec.payload@) {
                            Some(data) => Ok(OperatorView::Create { receivers, data }),
                            None => Err(CreateError::InvalidPayload),
                        },
                        OperatorDiscriminants::Recording => Ok(OperatorView::Recording { transform_id, receivers }),
                        OperatorDiscriminants::Impulse => Ok(OperatorView::Impulse { receivers }),
                        OperatorDiscriminants::Flatten => Ok(OperatorView::Flatten { receivers }),
                        OperatorDiscriminants::GroupByKey => if !valid_utf8(spec.payload@) {
                            Err(CreateError::InvalidPayload)
                        } else if !registry.has_key_extractor(decode_utf8(spec.payload@)) {
                            Err(CreateError::UnknownFunction)
                        } else {
                            Ok(OperatorView::GroupByKey {
                                receivers,
                                key_extractor: decode_utf8(spec.payload@),
                                groups: Seq::empty(),
                            })
                        },
                        OperatorDiscriminants::ParDo => if !valid_utf8(spec.payload@) {
                            Err(CreateError::InvalidPayload)
                        } else if !registry.has_do_fn(decode_utf8(spec.payload@)) {
                            Err(CreateError::UnknownFunction)
                        } else {
                            Ok(OperatorView::ParDo { receivers, do_fn: decode_utf8(spec.payload@) })
                        },
                        _ => Err(CreateError::Unsupported),
                    },
                },
            }
        },
    }
}

/// Builds the operator for the bundle's transform `transform_id`, choosing
/// its kind by the transform's URN.
pub fn create_operator<R: FnRegistry>(transform_id: &str, context: &OperatorContext, registry: &R) -> (r: Operator)
    requires
        creation(*registry, *context, transform_id@) is Ok,
    ensures
        r.state() == creation(*registry, *context, transform_id@)->Ok_0,
{
    let transform = context.descriptor.transform(transform_id).unwrap();
    let spec = transform.spec.as_ref().unwrap();
    let op_discriminant = operator_discriminant_for_urn(spec.urn.as_str()).unwrap();
    match op_discriminant {
        OperatorDiscriminants::Create => Operator::Create(CreateOperator::new(transform, context)),
        OperatorDiscriminants::Recording => Operator::Recording(RecordingOperator::new(transform_id, transform, context)),
        OperatorDiscriminants::Impulse => Operator::Impulse(ImpulsePerBundleOperator::new(transform, context)),
        OperatorDiscriminants::GroupByKey => Operator::GroupByKey(
            GroupByKeyWithinBundleOperator::new(transform, context, registry),
        ),
        OperatorDiscriminants::ParDo => Operator::ParDo(ParDoOperator::new(transform, context, registry)),
        OperatorDiscriminants::Flatten => Operator::Flatten(FlattenOperator::new(transform, context)),
        _ => vstd::pervasive::unreached(),
    }
}

/// Builds the operator for the bundle's transform `transform_id`, or says
/// why it cannot be built.
pub fn try_create_operator<R: FnRegistry>(transform_id: &str, context: &OperatorContext, registry: &R) -> (r: Result<Operator, CreateError>)
    ensures
        match r {
            Ok(op) => creation(*registry, *context, transform_id@) is Ok && op.state()
                == creation(*registry, *context, transform_id@)->Ok_0,
            Err(e) => creation(*registry, *context, transform_id@) == Err::<OperatorView, CreateError>(e),
        },
{
    let transform = match context.descriptor.transform(transform_id) {
        Some(t) => t,
        None => return Err(CreateError::TransformNotFound),
    };
    let spec = match transform.spec.as_ref() {
        Some(s) => s,
        None => return Err(CreateError::MissingSpec),
    };
    let op_discriminant = match operator_discriminant_for_urn(spec.urn.as_str()) {
        Some(d) => d,
        None => return Err(CreateError::UnknownUrn),
    };
    match op_discriminant {
        OperatorDiscriminants::Create => {
            if decode_string_list(&spec.payload).is_none() {
                return Err(CreateError::InvalidPayload);
            }
        },
        OperatorDiscriminants::GroupByKey => {
            match decode_name(&spec.payload) {
                None => return Err(CreateError::InvalidPayload),
                Some(name) => {
                    if !registry.contains_key_extractor(name.as_str()) {
                        return Err(CreateError::UnknownFunction);
                    }
                },
            }
        },
        OperatorDiscriminants::ParDo => {
            match decode_name(&spec.payload) {
                None => return Err(CreateError::InvalidPayload),
                Some(name) => {
                    if !registry.contains_do_fn(name.as_str()) {
                        return Err(CreateError::UnknownFunction);
                    }
                },
            }
        },
        OperatorDiscriminants::_Partitioning => return Err(CreateError::Unsupported),
        OperatorDiscriminants::_DataSource => return Err(CreateError::Unsupported),
        _ => {},
    }
    Ok(create_operator(transform_id, context, registry))
}

/// Receivers with the same consumers, in the same order.
pub fn duplicate_receivers(receivers: &Vec<Receiver>) -> (r: Vec<Receiver>)
    ensures
        receivers_view(r@) == receivers_view(receivers@),
{
    let mut out: Vec<Receiver> = Vec::new();
    let mut i: usize = 0;
    while i < receivers.len()
        invariant
            0 <= i <= receivers@.len(),
            out@.len() == i,
            forall|k: int| 0 <= k < i ==> (#[trigger] out@[k])@ == receivers@[k]@,
        decreases receivers@.len() - i,
    {
        out.push(receivers[i].duplicate());
        i = i + 1;
    }
    proof {
        assert(receivers_view(out@) =~= receivers_view(receivers@));
    }
    out
}

/// The consumers of every receiver, receiver by receiver.
pub fn flatten_receivers(receivers: &Vec<Receiver>) -> (r: Vec<usize>)
    ensures
        r@ == targets(receivers_view(receivers@)),
{
    let ghost rv = receivers_view(receivers@);
    let mut out: Vec<usize> = Vec::new();
    let mut i: usize = 0;
    while i < receivers.len()
        invariant
            0 <= i <= receivers@.len(),
            rv == receivers_view(receivers@),
            out@ == targets(rv.subrange(0, i as int)),
        decreases receivers@.len() - i,
    {
        let ghost before = out@;
        let ops = &receivers[i].operators;
        let mut k: usize = 0;
        while k < ops.len()
            invariant
                0 <= k <= ops@.len(),
                out@ == before + ops@.subrange(0, k as int),
            decreases ops@.len() - k,
        {
            out.push(ops[k]);
            proof {
                assert(out@ =~= before + ops@.subrange(0, k + 1));
            }
            k = k + 1;
        }
        proof {
            assert(rv.subrange(0, i + 1).drop_last() =~= rv.subrange(0, i as int));
            assert(rv[i as int] == ops@);
            assert(ops@.subrange(0, k as int) =~= ops@);
        }
        i = i + 1;
    }
    proof {
        assert(rv.subrange(0, i as int) =~= rv);
    }
    out
}

impl Operator {
    /// Whether this kind of operator has an implementation.
    pub fn is_runnable(&self) -> (r: bool)
        ensures
            r == runnable(self.state()),
    {
        match self {
            Operator::_Partitioning => false,
            Operator::_DataSource => false,
            _ => true,
        }
    }

    /// Whether this is a group-by-key operator.
    pub fn is_group_by_key(&self) -> (r: bool)
        ensures
            r == (self.state() is GroupByKey),
    {
        match self {
            Operator::GroupByKey(_) => true,
            _ => false,
        }
    }

    /// The receivers of this operator's output, in order.
    pub fn receiver_lists(&self) -> (r: Vec<Receiver>)
        ensures
            receivers_view(r@) == receivers_of(self.state()),
    {
        match self {
            Operator::Create(op) => duplicate_receivers(&op.receivers),
            Operator::Recording(op) => duplicate_receivers(&op.receivers),
            Operator::GroupByKey(op) => duplicate_receivers(&op.receivers),
            Operator::Impulse(op) => duplicate_receivers(&op.receivers),
            Operator::ParDo(op) => duplicate_receivers(&op.receivers),
            Operator::Flatten(op) => duplicate_receivers(&op.receivers),
            _ => {
                let r: Vec<Receiver> = Vec::new();
                proof {
                    assert(receivers_view(r@) =~= Seq::empty());
                }
                r
            },
        }
    }

    /// The positions of the operators that consume this operator's output,
    /// receiver by receiver.
    pub fn consumer_positions(&self) -> (r: Vec<usize>)
        ensures
            r@ == targets(receivers_of(self.state())),
    {
        match self {
            Operator::Create(op) => flatten_receivers(&op.receivers),
            Operator::Recording(op) => flatten_receivers(&op.receivers),
            Operator::GroupByKey(op) => flatten_receivers(&op.receivers),
            Operator::Impulse(op) => flatten_receivers(&op.receivers),
            Operator::ParDo(op) => flatten_receivers(&op.receivers),
            Operator::Flatten(op) => flatten_receivers(&op.receivers),
            _ => {
                let r: Vec<usize> = Vec::new();
                proof {
                    assert(r@ =~= targets(Seq::empty()));
                }
                r
            },
        }
    }
}

} // verus!
