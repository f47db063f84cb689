use n3_builder::builder::{
    concat_shapes, normalize_axis, to_linear_shapes, GraphNodeEntry, NodeEntry,
};
use n3_builder::cache::NodeRoot;
use n3_builder::error::Error;
use n3_builder::graph::{GraphCall, GraphInputs, GraphNode, Shape, Shapes};
use n3_builder::strmap::StrMap;
use n3_builder::value::{Out, Value};

fn table(entries: Vec<(&str, Option<Vec<u64>>)>) -> Shapes {
    let mut m: StrMap<Option<Shape>> = StrMap::new();
    for (k, dims) in entries {
        let slot = dims.map(|ds| Shape(ds.into_iter().map(Value::UInt).collect()));
        m.insert(k.to_string(), slot);
    }
    Shapes(m)
}

fn dims_of(s: &Shapes, k: &str) -> Option<Vec<u64>> {
    let slot = s.0.get(&k.to_string()).expect("port must exist");
    slot.as_ref().map(|sh| {
        sh.0.iter()
            .map(|v| match v {
                Value::UInt(n) => *n,
                other => panic!("unexpected dim {:?}", other),
            })
            .collect()
    })
}

fn plain_call(name: &str) -> GraphCall {
    GraphCall { name: name.to_string(), inputs: None, args: None, repeat: None }
}

fn input_step(shapes: Shapes) -> GraphNode {
    GraphNode { id: 0, calls: vec![plain_call("Input")], shapes: Some(shapes) }
}

fn current_output(entry: &NodeEntry, port: &str) -> Vec<u64> {
    let sh = entry.tensor_graph.get_output_shapes().expect("output shapes");
    dims_of(sh, port).expect("resolved port")
}

#[test]
fn input_step_exposes_the_declared_shapes() {
    let mut root = NodeRoot::new();
    let mut entry = NodeEntry::new("net".to_string(), &mut root);
    let step = GraphNodeEntry { node: input_step(table(vec![("x", Some(vec![3, 32]))])) };
    step.build(&mut entry, &mut root).expect("input step");
    assert_eq!(current_output(&entry, "x"), vec![3, 32]);
}

#[test]
fn input_step_without_shapes_is_refused() {
    let mut root = NodeRoot::new();
    let mut entry = NodeEntry::new("net".to_string(), &mut root);
    let step = GraphNodeEntry {
        node: GraphNode { id: 0, calls: vec![plain_call("Input")], shapes: None },
    };
    let e = step.build(&mut entry, &mut root).unwrap_err();
    assert!(matches!(e, Error::MismatchedSize { .. }));
}

#[test]
fn to_linear_flattens_to_the_product() {
    let mut root = NodeRoot::new();
    let mut entry = NodeEntry::new("net".to_string(), &mut root);
    GraphNodeEntry { node: input_step(table(vec![("x", Some(vec![3, 10]))])) }
        .build(&mut entry, &mut root)
        .expect("input step");
    let step = GraphNodeEntry {
        node: GraphNode { id: 1, calls: vec![plain_call("ToLinear")], shapes: None },
    };
    step.build(&mut entry, &mut root).expect("to-linear step");
    assert_eq!(current_output(&entry, "x"), vec![30]);
}

#[test]
fn to_linear_kernel_handles_many_ports() {
    let ins = table(vec![("a", Some(vec![2, 3, 4])), ("b", None)]);
    let outs = to_linear_shapes(&ins);
    assert_eq!(dims_of(&outs, "a"), Some(vec![24]));
    assert_eq!(dims_of(&outs, "b"), None);
}

#[test]
fn transform_keeps_declared_shapes_when_counts_agree() {
    let mut root = NodeRoot::new();
    let mut entry = NodeEntry::new("net".to_string(), &mut root);
    GraphNodeEntry { node: input_step(table(vec![("x", Some(vec![2, 3]))])) }
        .build(&mut entry, &mut root)
        .expect("input step");
    let step = GraphNodeEntry {
        node: GraphNode {
            id: 1,
            calls: vec![plain_call("Transform")],
            shapes: Some(table(vec![("x", Some(vec![3, 2]))])),
        },
    };
    step.build(&mut entry, &mut root).expect("transform step");
    assert_eq!(current_output(&entry, "x"), vec![3, 2]);
}

#[test]
fn transform_rejects_different_port_names_even_with_equal_counts() {
    let mut root = NodeRoot::new();
    let mut entry = NodeEntry::new("net".to_string(), &mut root);
    GraphNodeEntry { node: input_step(table(vec![("x", Some(vec![2, 3]))])) }
        .build(&mut entry, &mut root)
        .expect("input step");
    let step = GraphNodeEntry {
        node: GraphNode {
            id: 1,
            calls: vec![plain_call("Transform")],
            shapes: Some(table(vec![("y", Some(vec![6]))])),
        },
    };
    let e = step.build(&mut entry, &mut root).unwrap_err();
    assert!(matches!(e, Error::MismatchedShapeKeys { .. }));
}

#[test]
fn transform_rejects_different_element_counts() {
    let mut root = NodeRoot::new();
    let mut entry = NodeEntry::new("net".to_string(), &mut root);
    GraphNodeEntry { node: input_step(table(vec![("x", Some(vec![2, 3]))])) }
        .build(&mut entry, &mut root)
        .expect("input step");
    let step = GraphNodeEntry {
        node: GraphNode {
            id: 1,
            calls: vec![plain_call("Transform")],
            shapes: Some(table(vec![("x", Some(vec![7]))])),
        },
    };
    let e = step.build(&mut entry, &mut root).unwrap_err();
    assert!(matches!(e, Error::DifferentValues { .. }));
}

#[test]
fn transform_with_a_repeat_count_is_refused() {
    let mut root = NodeRoot::new();
    let mut entry = NodeEntry::new("net".to_string(), &mut root);
    GraphNodeEntry { node: input_step(table(vec![("x", Some(vec![2]))])) }
        .build(&mut entry, &mut root)
        .expect("input step");
    let mut call = plain_call("Transform");
    call.repeat = Some(Value::UInt(2));
    let step = GraphNodeEntry {
        node: GraphNode {
            id: 1,
            calls: vec![call],
            shapes: Some(table(vec![("x", Some(vec![2]))])),
        },
    };
    let e = step.build(&mut entry, &mut root).unwrap_err();
    assert!(matches!(e, Error::UnexpectedRepeat { .. }));
}

fn concat_step(axis: i64) -> GraphNode {
    let mut args = StrMap::new();
    args.insert("axis".to_string(), Value::Int(axis));
    let call = GraphCall {
        name: "Concat".to_string(),
        inputs: Some(GraphInputs::List(vec![
            Out::new(0, "a".to_string()),
            Out::new(0, "b".to_string()),
        ])),
        args: Some(args),
        repeat: None,
    };
    GraphNode { id: 1, calls: vec![call], shapes: None }
}

fn concat_entry() -> (NodeRoot, NodeEntry) {
    let mut root = NodeRoot::new();
    let mut entry = NodeEntry::new("net".to_string(), &mut root);
    GraphNodeEntry {
        node: input_step(table(vec![("a", Some(vec![2, 3])), ("b", Some(vec![2, 5]))])),
    }
    .build(&mut entry, &mut root)
    .expect("input step");
    (root, entry)
}

#[test]
fn concat_sums_the_axis_dimension() {
    let (mut root, mut entry) = concat_entry();
    GraphNodeEntry { node: concat_step(1) }.build(&mut entry, &mut root).expect("concat");
    assert_eq!(current_output(&entry, "x"), vec![2, 8]);
}

#[test]
fn concat_accepts_the_documented_negative_axis() {
    // the normalization is axis := -axis - rank, so -3 with rank 2 is axis 1
    let (mut root, mut entry) = concat_entry();
    GraphNodeEntry { node: concat_step(-3) }.build(&mut entry, &mut root).expect("concat");
    assert_eq!(current_output(&entry, "x"), vec![2, 8]);
}

#[test]
fn concat_rejects_an_axis_out_of_range() {
    let (mut root, mut entry) = concat_entry();
    let e = GraphNodeEntry { node: concat_step(2) }.build(&mut entry, &mut root).unwrap_err();
    assert_eq!(e, Error::MismatchedAxis { val_min: 0, val_max: 1, given: 2 });
}

#[test]
fn concat_rejects_dict_inputs() {
    let (mut root, mut entry) = concat_entry();
    let mut args = StrMap::new();
    args.insert("axis".to_string(), Value::Int(0));
    let call = GraphCall {
        name: "Concat".to_string(),
        inputs: Some(GraphInputs::Dict(StrMap::new())),
        args: Some(args),
        repeat: None,
    };
    let step = GraphNodeEntry { node: GraphNode { id: 1, calls: vec![call], shapes: None } };
    let e = step.build(&mut entry, &mut root).unwrap_err();
    assert!(matches!(e, Error::MismatchedInputsType { .. }));
}

#[test]
fn concat_rejects_a_boolean_axis() {
    let (mut root, mut entry) = concat_entry();
    let mut args = StrMap::new();
    args.insert("axis".to_string(), Value::Bool(true));
    let call = GraphCall {
        name: "Concat".to_string(),
        inputs: Some(GraphInputs::List(vec![Out::new(0, "a".to_string())])),
        args: Some(args),
        repeat: None,
    };
    let step = GraphNodeEntry { node: GraphNode { id: 1, calls: vec![call], shapes: None } };
    let e = step.build(&mut entry, &mut root).unwrap_err();
    assert!(matches!(e, Error::MismatchedArgType { .. }));
}

#[test]
fn concat_kernel_matches_the_documented_example() {
    let inputs = vec![
        Shape(vec![Value::UInt(2), Value::UInt(3)]),
        Shape(vec![Value::UInt(2), Value::UInt(5)]),
    ];
    let out = concat_shapes(&inputs, 1).expect("concat");
    assert_eq!(out.0[0], Value::UInt(2));
    assert_eq!(out.0[1], Value::UInt(8));
}

#[test]
fn concat_kernel_rejects_disagreeing_rows() {
    let inputs = vec![
        Shape(vec![Value::UInt(2), Value::UInt(3)]),
        Shape(vec![Value::UInt(9), Value::UInt(5)]),
    ];
    let e = concat_shapes(&inputs, 1).unwrap_err();
    assert!(matches!(e, Error::DifferentValues { .. }));
}

#[test]
fn axis_normalization_follows_the_documented_rule() {
    assert_eq!(normalize_axis(1, 2), Ok(1));
    assert_eq!(normalize_axis(-3, 2), Ok(1));
    assert_eq!(normalize_axis(-2, 2), Ok(0));
    assert_eq!(
        normalize_axis(-1, 2),
        Err(Error::MismatchedAxis { val_min: 0, val_max: 1, given: -1 })
    );
    assert_eq!(
        normalize_axis(2, 2),
        Err(Error::MismatchedAxis { val_min: 0, val_max: 1, given: 2 })
    );
}

#[test]
fn to_linear_on_an_empty_graph_is_refused() {
    let mut root = NodeRoot::new();
    let mut entry = NodeEntry::new("net".to_string(), &mut root);
    let step = GraphNodeEntry {
        node: GraphNode { id: 1, calls: vec![plain_call("ToLinear")], shapes: None },
    };
    let e = step.build(&mut entry, &mut root).unwrap_err();
    assert!(matches!(e, Error::GenericShapes));
}

#[test]
fn concat_rejects_an_unresolved_later_input() {
    let mut root = NodeRoot::new();
    let mut entry = NodeEntry::new("net".to_string(), &mut root);
    GraphNodeEntry {
        node: input_step(table(vec![("a", Some(vec![2, 3])), ("b", None)])),
    }
    .build(&mut entry, &mut root)
    .expect("input step");
    let e = GraphNodeEntry { node: concat_step(1) }.build(&mut entry, &mut root).unwrap_err();
    assert_eq!(e, Error::GenericListInputShape { index: 1 });
}
