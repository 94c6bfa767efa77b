use apache_beam::elements::{GlobalWindow, Value, WindowedValue};
use apache_beam::graph::BundleGraph;
use apache_beam::operators::{
    create_operator, operator_discriminant_for_urn, try_create_operator, CreateError, CreateOperator,
    Emitted, FlattenOperator, GroupByKeyWithinBundleOperator, ImpulsePerBundleOperator, Operator,
    OperatorContext, OperatorDiscriminants, OperatorI, ParDoOperator, Receiver, RecordingOperator,
};
use apache_beam::proto::{FunctionSpec, PTransform, ProcessBundleDescriptor};
use apache_beam::registry::{ClosureRegistry, FnRegistry};
use apache_beam::transforms::Flatten;
use apache_beam::urns::{
    CREATE_URN, DATA_INPUT_URN, FLATTEN_URN, GROUP_BY_KEY_URN, IMPULSE_BUFFER, IMPULSE_URN, PARTITION_URN,
    PAR_DO_URN, RECORDING_URN,
};

fn text(s: &str) -> Value {
    Value::Text(s.to_string())
}

fn registry() -> ClosureRegistry<
    impl Fn(&str, &Value) -> Vec<Value>,
    impl Fn(&str, &Value) -> (String, Value),
    impl Fn(&str, &str, &Vec<Value>) -> Value,
> {
    ClosureRegistry::new(
        vec!["twice".to_string(), "upper".to_string()],
        |name: &str, input: &Value| {
            if name == "twice" {
                vec![input.duplicate(), input.duplicate()]
            } else {
                match input {
                    Value::Text(s) => vec![Value::Text(s.to_uppercase())],
                    other => vec![other.duplicate()],
                }
            }
        },
        vec!["kv".to_string()],
        |_name: &str, input: &Value| match input {
            Value::Kv(k, v) => match &**k {
                Value::Text(s) => (s.clone(), v.duplicate()),
                _ => (String::new(), v.duplicate()),
            },
            other => (String::new(), other.duplicate()),
        },
        |_name: &str, key: &str, values: &Vec<Value>| {
            Value::Kv(Box::new(text(key)), Box::new(Value::Iterable(values.iter().map(|v| v.duplicate()).collect())))
        },
    )
}

fn transform(urn: &str, payload: &[u8], outputs: &[(&str, &str)]) -> PTransform {
    PTransform {
        spec: Some(FunctionSpec { urn: urn.to_string(), payload: payload.to_vec() }),
        outputs: outputs.iter().map(|(a, b)| (a.to_string(), b.to_string())).collect(),
    }
}

fn context(transforms: Vec<(&str, PTransform)>, receivers: Vec<(&str, Vec<usize>)>) -> OperatorContext {
    OperatorContext {
        descriptor: ProcessBundleDescriptor {
            transforms: transforms.into_iter().map(|(id, t)| (id.to_string(), t)).collect(),
        },
        receivers: receivers.into_iter().map(|(p, ops)| (p.to_string(), Receiver::new(ops))).collect(),
    }
}

fn log_of(graph: &BundleGraph) -> Vec<String> {
    graph.log.clone()
}

// ******* Elements *******

#[test]
fn in_global_window_places_value_in_the_global_window() {
    let wv = WindowedValue::in_global_window(Value::Int(3));
    assert_eq!(wv.windows, vec![GlobalWindow]);
    assert!(wv.pane_info.is_empty());
    assert_eq!(wv.value, Value::Int(3));
}

#[test]
fn in_global_window_at_uses_the_given_timestamp() {
    let now = std::time::Instant::now();
    let wv = WindowedValue::in_global_window_at(text("t"), now);
    assert_eq!(wv.timestamp, now);
    assert_eq!(wv.windows, vec![GlobalWindow]);
    assert!(wv.pane_info.is_empty());
    assert_eq!(wv.value, text("t"));
}

#[test]
fn with_value_keeps_windowing() {
    let mut wv = WindowedValue::in_global_window(text("a"));
    wv.pane_info = vec![7, 8];
    let other = wv.with_value(text("b"));
    assert_eq!(other.windows, wv.windows);
    assert_eq!(other.timestamp, wv.timestamp);
    assert_eq!(other.pane_info, vec![7, 8]);
    assert_eq!(other.value, text("b"));
}

#[test]
fn duplicate_copies_nested_values() {
    let v = Value::Kv(Box::new(text("k")), Box::new(Value::Iterable(vec![Value::Int(1), Value::Bytes(vec![1, 2])])));
    assert_eq!(v.duplicate(), v);
}

// ******* URNs and the flatten transform *******

#[test]
fn urns_map_to_their_operator_kinds() {
    assert_eq!(operator_discriminant_for_urn(CREATE_URN), Some(OperatorDiscriminants::Create));
    assert_eq!(operator_discriminant_for_urn(RECORDING_URN), Some(OperatorDiscriminants::Recording));
    assert_eq!(operator_discriminant_for_urn(PARTITION_URN), Some(OperatorDiscriminants::_Partitioning));
    assert_eq!(operator_discriminant_for_urn(IMPULSE_URN), Some(OperatorDiscriminants::Impulse));
    assert_eq!(operator_discriminant_for_urn(GROUP_BY_KEY_URN), Some(OperatorDiscriminants::GroupByKey));
    assert_eq!(operator_discriminant_for_urn(DATA_INPUT_URN), Some(OperatorDiscriminants::_DataSource));
    assert_eq!(operator_discriminant_for_urn(PAR_DO_URN), Some(OperatorDiscriminants::ParDo));
    assert_eq!(operator_discriminant_for_urn(FLATTEN_URN), Some(OperatorDiscriminants::Flatten));
    assert_eq!(operator_discriminant_for_urn("beam:transform:unknown:v1"), None);
    assert_eq!(operator_discriminant_for_urn(""), None);
}

#[test]
fn flatten_expand_writes_its_spec() {
    let flatten = Flatten::new();
    let _other = Flatten::default();
    let mut t = PTransform { spec: None, outputs: vec![("out".to_string(), "pc".to_string())] };
    flatten.expand_internal(&mut t);
    let spec = t.spec.unwrap();
    assert_eq!(spec.urn, FLATTEN_URN);
    assert_eq!(spec.payload, IMPULSE_BUFFER.to_vec());
    assert_eq!(t.outputs, vec![("out".to_string(), "pc".to_string())]);
}

// ******* Building operators *******

#[test]
fn create_operator_reads_json_strings() {
    let ctx = context(
        vec![("create", transform(CREATE_URN, br#"["a", "b"]"#, &[("out", "pc")]))],
        vec![("pc", vec![4, 5])],
    );
    match create_operator("create", &ctx, &registry()) {
        Operator::Create(op) => {
            assert_eq!(op.data, vec!["a".to_string(), "b".to_string()]);
            assert_eq!(op.receivers.len(), 1);
            assert_eq!(op.receivers[0].operators, vec![4, 5]);
        },
        _ => panic!("expected a create operator"),
    }
}

#[test]
fn create_operator_picks_kind_by_urn() {
    let ctx = context(
        vec![
            ("rec", transform(RECORDING_URN, b"", &[("out", "pc")])),
            ("imp", transform(IMPULSE_URN, b"", &[])),
            ("flat", transform(FLATTEN_URN, b"", &[("out", "missing")])),
            ("gbk", transform(GROUP_BY_KEY_URN, b"kv", &[])),
            ("pardo", transform(PAR_DO_URN, b"twice", &[])),
        ],
        vec![("pc", vec![0])],
    );
    let reg = registry();
    match create_operator("rec", &ctx, &reg) {
        Operator::Recording(op) => {
            assert_eq!(op.transform_id, "rec");
            assert_eq!(op.receivers[0].operators, vec![0]);
        },
        _ => panic!("expected a recording operator"),
    }
    assert!(matches!(create_operator("imp", &ctx, &reg), Operator::Impulse(_)));
    match create_operator("flat", &ctx, &reg) {
        Operator::Flatten(op) => assert!(op.receivers[0].operators.is_empty()),
        _ => panic!("expected a flatten operator"),
    }
    match create_operator("gbk", &ctx, &reg) {
        Operator::GroupByKey(op) => {
            assert_eq!(op.key_extractor, "kv");
            assert!(op.grouped_values.is_empty());
        },
        _ => panic!("expected a group-by-key operator"),
    }
    match create_operator("pardo", &ctx, &reg) {
        Operator::ParDo(op) => assert_eq!(op.do_fn, "twice"),
        _ => panic!("expected a pardo operator"),
    }
}

#[test]
fn try_create_operator_reports_each_error() {
    let no_spec = PTransform { spec: None, outputs: vec![] };
    let ctx = context(
        vec![
            ("nospec", no_spec),
            ("unknown", transform("beam:transform:unknown:v1", b"", &[])),
            ("part", transform(PARTITION_URN, b"", &[])),
            ("source", transform(DATA_INPUT_URN, b"", &[])),
            ("badjson", transform(CREATE_URN, b"[1, 2]", &[])),
            ("badutf8", transform(PAR_DO_URN, &[0xff, 0xfe], &[])),
            ("nofn", transform(PAR_DO_URN, b"missing", &[])),
            ("noextractor", transform(GROUP_BY_KEY_URN, b"twice", &[])),
            ("ok", transform(FLATTEN_URN, b"", &[])),
        ],
        vec![],
    );
    let reg = registry();
    assert_eq!(try_create_operator("absent", &ctx, &reg).err(), Some(CreateError::TransformNotFound));
    assert_eq!(try_create_operator("nospec", &ctx, &reg).err(), Some(CreateError::MissingSpec));
    assert_eq!(try_create_operator("unknown", &ctx, &reg).err(), Some(CreateError::UnknownUrn));
    assert_eq!(try_create_operator("part", &ctx, &reg).err(), Some(CreateError::Unsupported));
    assert_eq!(try_create_operator("source", &ctx, &reg).err(), Some(CreateError::Unsupported));
    assert_eq!(try_create_operator("badjson", &ctx, &reg).err(), Some(CreateError::InvalidPayload));
    assert_eq!(try_create_operator("badutf8", &ctx, &reg).err(), Some(CreateError::InvalidPayload));
    assert_eq!(try_create_operator("nofn", &ctx, &reg).err(), Some(CreateError::UnknownFunction));
    assert_eq!(try_create_operator("noextractor", &ctx, &reg).err(), Some(CreateError::UnknownFunction));
    assert!(matches!(try_create_operator("ok", &ctx, &reg), Ok(Operator::Flatten(_))));
}

#[test]
fn first_transform_with_an_id_wins() {
    let ctx = context(
        vec![("t", transform(IMPULSE_URN, b"", &[])), ("t", transform(FLATTEN_URN, b"", &[]))],
        vec![],
    );
    assert!(matches!(create_operator("t", &ctx, &registry()), Operator::Impulse(_)));
}

#[test]
fn get_receiver_without_registration_is_empty() {
    let ctx = context(vec![], vec![("pc", vec![1, 2]), ("pc", vec![3])]);
    assert_eq!(ctx.get_receiver("pc").operators, vec![1, 2]);
    assert!(ctx.get_receiver("other").operators.is_empty());
}

#[test]
fn operator_new_builds_create_operators() {
    let ctx = context(vec![], vec![]);
    let t = transform(CREATE_URN, br#"["x"]"#, &[]);
    match Operator::new(&t, &ctx, OperatorDiscriminants::Create) {
        Operator::Create(op) => assert_eq!(op.data, vec!["x".to_string()]),
        _ => panic!("expected a create operator"),
    }
}

// ******* Single operators *******

#[test]
fn create_start_bundle_emits_data_in_order() {
    let mut op = CreateOperator { receivers: vec![], data: vec!["a".to_string(), "b".to_string()] };
    let out: Emitted = op.start_bundle();
    assert_eq!(out.values.len(), 2);
    assert_eq!(out.values[0].value, text("a"));
    assert_eq!(out.values[1].value, text("b"));
    assert_eq!(out.values[1].windows, vec![GlobalWindow]);
    assert!(out.log.is_empty());
    let reg = registry();
    assert!(op.process(&WindowedValue::in_global_window(text("c")), &reg).values.is_empty());
    assert!(op.finish_bundle(&reg).values.is_empty());
}

#[test]
fn impulse_emits_one_empty_element() {
    let mut op = ImpulsePerBundleOperator { receivers: vec![] };
    let out = op.start_bundle();
    assert_eq!(out.values.len(), 1);
    assert_eq!(out.values[0].value, Value::Bytes(vec![]));
    assert!(out.values[0].pane_info.is_empty());
}

#[test]
fn recording_logs_each_call() {
    let mut op = RecordingOperator { transform_id: "rec".to_string(), receivers: vec![] };
    let reg = registry();
    assert_eq!(op.start_bundle().log, vec!["rec.start_bundle()".to_string()]);
    let out = op.process(&WindowedValue::in_global_window(text("a\"b")), &reg);
    assert_eq!(out.log, vec!["rec.process(\"a\\\"b\")".to_string()]);
    assert_eq!(out.values.len(), 1);
    assert_eq!(out.values[0].value, text("a\"b"));
    let out = op.process(&WindowedValue::in_global_window(Value::Int(1)), &reg);
    assert_eq!(out.log, vec!["rec.process(\"{any}\")".to_string()]);
    assert_eq!(op.finish_bundle(&reg).log, vec!["rec.finish_bundle()".to_string()]);
}

#[test]
fn flatten_operator_forwards_unchanged() {
    let mut op = FlattenOperator { receivers: vec![] };
    let input = WindowedValue::in_global_window(text("z"));
    let out = op.process(&input, &registry());
    assert_eq!(out.values.len(), 1);
    assert_eq!(out.values[0].value, text("z"));
    assert_eq!(out.values[0].timestamp, input.timestamp);
    assert!(out.log.is_empty());
}

#[test]
fn pardo_emits_outputs_with_input_windowing() {
    let mut op = ParDoOperator { receivers: vec![], do_fn: "twice".to_string() };
    let mut input = WindowedValue::in_global_window(text("q"));
    input.pane_info = vec![9];
    let out = op.process(&input, &registry());
    assert_eq!(out.values.len(), 2);
    for v in &out.values {
        assert_eq!(v.value, text("q"));
        assert_eq!(v.timestamp, input.timestamp);
        assert_eq!(v.pane_info, vec![9]);
    }
}

fn kv(k: &str, v: i64) -> WindowedValue {
    WindowedValue::in_global_window(Value::Kv(Box::new(text(k)), Box::new(Value::Int(v))))
}

#[test]
fn group_by_key_groups_in_arrival_order() {
    let mut op = GroupByKeyWithinBundleOperator {
        receivers: vec![Receiver::new(vec![])],
        key_extractor: "kv".to_string(),
        grouped_values: vec![],
    };
    let reg = registry();
    op.start_bundle();
    for wv in [kv("x", 1), kv("y", 2), kv("x", 3)] {
        assert!(op.process(&wv, &reg).values.is_empty());
    }
    let out = op.finish_bundle(&reg);
    assert_eq!(out.values.len(), 2);
    assert_eq!(
        out.values[0].value,
        Value::Kv(Box::new(text("x")), Box::new(Value::Iterable(vec![Value::Int(1), Value::Int(3)])))
    );
    assert_eq!(out.values[1].value, Value::Kv(Box::new(text("y")), Box::new(Value::Iterable(vec![Value::Int(2)]))));
    // A new bundle starts with no groups.
    op.start_bundle();
    assert!(op.finish_bundle(&reg).values.is_empty());
}

#[test]
fn group_by_key_builds_one_element_per_group_and_receiver() {
    let mut op = GroupByKeyWithinBundleOperator {
        receivers: vec![Receiver::new(vec![0]), Receiver::new(vec![1])],
        key_extractor: "kv".to_string(),
        grouped_values: vec![],
    };
    let reg = registry();
    op.start_bundle();
    op.process(&kv("x", 1), &reg);
    op.process(&kv("y", 2), &reg);
    let out = op.finish_bundle(&reg);
    let x = Value::Kv(Box::new(text("x")), Box::new(Value::Iterable(vec![Value::Int(1)])));
    let y = Value::Kv(Box::new(text("y")), Box::new(Value::Iterable(vec![Value::Int(2)])));
    let values: Vec<Value> = out.values.iter().map(|w| w.value.duplicate()).collect();
    assert_eq!(values, vec![x.duplicate(), x, y.duplicate(), y]);
    let mut none = GroupByKeyWithinBundleOperator {
        receivers: vec![],
        key_extractor: "kv".to_string(),
        grouped_values: vec![],
    };
    none.process(&kv("x", 1), &reg);
    assert!(none.finish_bundle(&reg).values.is_empty());
}

#[test]
fn operators_describe_themselves() {
    let gbk = GroupByKeyWithinBundleOperator { receivers: vec![], key_extractor: "kv".to_string(), grouped_values: vec![] };
    assert_eq!(gbk.describe(), "GroupByKeyWithinBundleOperator");
    let pardo = ParDoOperator { receivers: vec![], do_fn: "twice".to_string() };
    assert_eq!(pardo.describe(), "ParDoOperator");
}

#[test]
fn operator_try_new_reports_each_error() {
    let ctx = context(vec![], vec![]);
    let good = transform(CREATE_URN, br#"["x"]"#, &[]);
    assert!(matches!(Operator::try_new(&good, &ctx, OperatorDiscriminants::Create), Ok(Operator::Create(_))));
    assert_eq!(Operator::try_new(&good, &ctx, OperatorDiscriminants::Flatten).err(), Some(CreateError::Unsupported));
    let no_spec = PTransform { spec: None, outputs: vec![] };
    assert_eq!(Operator::try_new(&no_spec, &ctx, OperatorDiscriminants::Create).err(), Some(CreateError::MissingSpec));
    let bad = transform(CREATE_URN, b"not json", &[]);
    assert_eq!(Operator::try_new(&bad, &ctx, OperatorDiscriminants::Create).err(), Some(CreateError::InvalidPayload));
}

#[test]
fn recording_session_logs_in_call_order() {
    let ops = vec![Operator::Recording(RecordingOperator { transform_id: "id".to_string(), receivers: vec![] })];
    let mut graph = BundleGraph::new(ops).unwrap();
    let reg = registry();
    graph.start_bundle_at(0, &reg);
    graph.process_at(0, &WindowedValue::in_global_window(text("v1")), &reg);
    graph.process_at(0, &WindowedValue::in_global_window(Value::Int(2)), &reg);
    graph.finish_bundle_at(0, &reg);
    assert_eq!(
        log_of(&graph),
        vec!["id.start_bundle()", "id.process(\"v1\")", "id.process(\"{any}\")", "id.finish_bundle()"]
    );
}

#[test]
fn group_by_key_sends_each_receiver_its_own_element() {
    // Two sinks, each behind its own receiver of the group-by-key operator.
    let ops = vec![
        Operator::Recording(RecordingOperator { transform_id: "a".to_string(), receivers: vec![] }),
        Operator::Recording(RecordingOperator { transform_id: "b".to_string(), receivers: vec![] }),
        Operator::GroupByKey(GroupByKeyWithinBundleOperator {
            receivers: vec![Receiver::new(vec![0]), Receiver::new(vec![1])],
            key_extractor: "kv".to_string(),
            grouped_values: vec![],
        }),
    ];
    let mut graph = BundleGraph::new(ops).unwrap();
    let reg = registry();
    graph.start_bundle_at(2, &reg);
    graph.process_at(2, &kv("x", 1), &reg);
    graph.process_at(2, &kv("y", 2), &reg);
    graph.finish_bundle_at(2, &reg);
    assert_eq!(
        log_of(&graph),
        vec!["a.process(\"{any}\")", "b.process(\"{any}\")", "a.process(\"{any}\")", "b.process(\"{any}\")"]
    );
}

// ******* Bundles *******

#[test]
fn bundle_graph_rejects_bad_layouts() {
    assert!(BundleGraph::new(vec![Operator::_Partitioning]).is_none());
    assert!(BundleGraph::new(vec![Operator::_DataSource]).is_none());
    let forward = FlattenOperator { receivers: vec![Receiver::new(vec![0])] };
    assert!(BundleGraph::new(vec![Operator::Flatten(forward)]).is_none());
    let to_later = FlattenOperator { receivers: vec![Receiver::new(vec![1])] };
    let sink = FlattenOperator { receivers: vec![] };
    assert!(BundleGraph::new(vec![Operator::Flatten(to_later), Operator::Flatten(sink)]).is_none());
    assert!(BundleGraph::new(vec![]).is_some());
}

fn pipeline() -> BundleGraph {
    // sink <- twice <- mid <- create
    let ctx = context(
        vec![
            ("sink", transform(RECORDING_URN, b"", &[])),
            ("twice", transform(PAR_DO_URN, b"twice", &[("out", "pc_twice")])),
            ("mid", transform(RECORDING_URN, b"", &[("out", "pc_mid")])),
            ("create", transform(CREATE_URN, br#"["a","b"]"#, &[("out", "pc_src")])),
        ],
        vec![("pc_twice", vec![0]), ("pc_mid", vec![1]), ("pc_src", vec![2])],
    );
    let reg = registry();
    let ops = vec![
        create_operator("sink", &ctx, &reg),
        create_operator("twice", &ctx, &reg),
        create_operator("mid", &ctx, &reg),
        create_operator("create", &ctx, &reg),
    ];
    BundleGraph::new(ops).unwrap()
}

#[test]
fn elements_flow_depth_first_through_the_pipeline() {
    let mut graph = pipeline();
    let reg = registry();
    graph.start_bundle_at(0, &reg);
    graph.start_bundle_at(1, &reg);
    graph.start_bundle_at(2, &reg);
    graph.start_bundle_at(3, &reg);
    for i in 0..4 {
        graph.finish_bundle_at(i, &reg);
    }
    assert_eq!(
        log_of(&graph),
        vec![
            "sink.start_bundle()",
            "mid.start_bundle()",
            "mid.process(\"a\")",
            "sink.process(\"a\")",
            "sink.process(\"a\")",
            "mid.process(\"b\")",
            "sink.process(\"b\")",
            "sink.process(\"b\")",
            "sink.finish_bundle()",
            "mid.finish_bundle()",
        ]
    );
}

#[test]
fn receiver_delivers_to_each_consumer_in_order() {
    let mut graph = pipeline();
    let reg = registry();
    let receiver = Receiver::new(vec![0, 2]);
    receiver.receive(&mut graph, &WindowedValue::in_global_window(text("r")), &reg);
    assert_eq!(
        log_of(&graph),
        vec!["sink.process(\"r\")", "mid.process(\"r\")", "sink.process(\"r\")", "sink.process(\"r\")"]
    );
    let empty = Receiver::new(vec![]);
    empty.receive(&mut graph, &WindowedValue::in_global_window(text("s")), &reg);
    assert_eq!(log_of(&graph).len(), 4);
}

#[test]
fn group_by_key_in_a_bundle_emits_per_key() {
    let ctx = context(
        vec![
            ("sink", transform(RECORDING_URN, b"", &[])),
            ("gbk", transform(GROUP_BY_KEY_URN, b"kv", &[("out", "grouped")])),
            ("flat", transform(FLATTEN_URN, b"", &[("out", "flat_out")])),
        ],
        vec![("grouped", vec![0]), ("flat_out", vec![1])],
    );
    let reg = registry();
    let ops = vec![
        create_operator("sink", &ctx, &reg),
        create_operator("gbk", &ctx, &reg),
        create_operator("flat", &ctx, &reg),
    ];
    let mut graph = BundleGraph::new(ops).unwrap();
    graph.start_bundle_at(1, &reg);
    graph.process_at(2, &kv("a", 1), &reg);
    graph.process_at(2, &kv("b", 2), &reg);
    graph.process_at(2, &kv("a", 5), &reg);
    assert!(log_of(&graph).is_empty());
    graph.finish_bundle_at(1, &reg);
    assert_eq!(log_of(&graph), vec!["sink.process(\"{any}\")", "sink.process(\"{any}\")"]);
    match &graph.operators[1] {
        Operator::GroupByKey(op) => {
            assert_eq!(op.grouped_values.len(), 2);
            assert_eq!(op.grouped_values[0].0, "a");
            assert_eq!(op.grouped_values[0].1, vec![Value::Int(1), Value::Int(5)]);
        },
        _ => panic!("expected the group-by-key operator"),
    }
}

#[test]
fn registry_answers_by_name() {
    let reg = registry();
    assert!(reg.contains_do_fn("upper"));
    assert!(!reg.contains_do_fn("kv"));
    assert!(reg.contains_key_extractor("kv"));
    assert_eq!(reg.apply_do_fn("upper", &text("ab")), vec![text("AB")]);
}
