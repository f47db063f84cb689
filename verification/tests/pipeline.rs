use n3_builder::builder::{GraphNodeEntry, NodeEntry};
use n3_builder::cache::NodeRoot;
use n3_builder::error::Error;
use n3_builder::exec::{ExecIR, ExecRoot, ExecRootConfig, DirStatus};
use n3_builder::graph::{GraphCall, GraphNode, Shape, Shapes};
use n3_builder::ir::NodeIR;
use n3_builder::strmap::StrMap;
use n3_builder::tensor::{ExternIR, IRData, TensorGraph, TensorNode};
use n3_builder::value::{LetNodeType, LetType, Value};
use n3_builder::vars::{Graph, Variable};

fn table(entries: Vec<(&str, Option<Vec<u64>>)>) -> Shapes {
    let mut m: StrMap<Option<Shape>> = StrMap::new();
    for (k, dims) in entries {
        let slot = dims.map(|ds| Shape(ds.into_iter().map(Value::UInt).collect()));
        m.insert(k.to_string(), slot);
    }
    Shapes(m)
}

fn dims_of(s: &Shapes, k: &str) -> Option<Vec<u64>> {
    let slot = s.0.get(&k.to_string()).expect("port must exist");
    slot.as_ref().map(|sh| {
        sh.0.iter()
            .map(|v| match v {
                Value::UInt(n) => *n,
                other => panic!("unexpected dim {:?}", other),
            })
            .collect()
    })
}

fn user_node_a(root: &mut NodeRoot) {
    let graph = Graph::new(&mut root.seed);
    let ir = ExternIR::new(
        "A".to_string(),
        graph,
        Some(table(vec![("x", Some(vec![3, 32]))])),
        Some(table(vec![("x", Some(vec![3, 10]))])),
    );
    let mut seed2 = n3_builder::seed::Seed::new();
    root.cache.store_built("A".to_string(), TensorNode::Extern(ir), &mut seed2).expect("matching name");
}

fn plain_call(name: &str) -> GraphCall {
    GraphCall { name: name.to_string(), inputs: None, args: None, repeat: None }
}

/// A composite feeding a `[3, 32]` batch through the user node `A`
/// (declared `[3, 32] -> [3, 10]`) and then flattening: the final output
/// must be exactly `[30]`.
#[test]
fn a_linear_head_flattens_to_thirty() {
    let mut root = NodeRoot::new();
    user_node_a(&mut root);
    let mut entry = NodeEntry::new("net".to_string(), &mut root);
    GraphNodeEntry {
        node: GraphNode {
            id: 0,
            calls: vec![plain_call("Input")],
            shapes: Some(table(vec![("x", Some(vec![3, 32]))])),
        },
    }
    .build(&mut entry, &mut root)
    .expect("input step");
    GraphNodeEntry { node: GraphNode { id: 1, calls: vec![plain_call("A")], shapes: None } }
        .build(&mut entry, &mut root)
        .expect("call step");
    GraphNodeEntry { node: GraphNode { id: 2, calls: vec![plain_call("ToLinear")], shapes: None } }
        .build(&mut entry, &mut root)
        .expect("to-linear step");
    let out = entry.tensor_graph.get_output_shapes().expect("final shapes");
    assert_eq!(dims_of(out, "x"), Some(vec![30]));
}

#[test]
fn calling_an_unknown_node_is_refused() {
    let mut root = NodeRoot::new();
    let mut entry = NodeEntry::new("net".to_string(), &mut root);
    GraphNodeEntry {
        node: GraphNode {
            id: 0,
            calls: vec![plain_call("Input")],
            shapes: Some(table(vec![("x", Some(vec![4]))])),
        },
    }
    .build(&mut entry, &mut root)
    .expect("input step");
    let e = GraphNodeEntry {
        node: GraphNode { id: 1, calls: vec![plain_call("Mystery")], shapes: None },
    }
    .build(&mut entry, &mut root)
    .unwrap_err();
    assert!(matches!(e, Error::NoSuchNode { .. }));
}

#[test]
fn a_conflicting_call_is_refused_during_linking() {
    let mut root = NodeRoot::new();
    user_node_a(&mut root);
    let mut entry = NodeEntry::new("net".to_string(), &mut root);
    GraphNodeEntry {
        node: GraphNode {
            id: 0,
            calls: vec![plain_call("Input")],
            shapes: Some(table(vec![("x", Some(vec![3, 33]))])),
        },
    }
    .build(&mut entry, &mut root)
    .expect("input step");
    let e = GraphNodeEntry { node: GraphNode { id: 1, calls: vec![plain_call("A")], shapes: None } }
        .build(&mut entry, &mut root)
        .unwrap_err();
    assert!(matches!(e, Error::DifferentValues { .. }));
}

#[test]
fn a_composite_with_a_repeat_count_does_not_lower() {
    let mut root = NodeRoot::new();
    let graph = Graph::new(&mut root.seed);
    let data = IRData::new("net".to_string(), graph, None, None);
    let inner = {
        let g2 = Graph::new(&mut root.seed);
        ExternIR::new(
            "leaf".to_string(),
            g2,
            Some(table(vec![("x", Some(vec![2]))])),
            Some(table(vec![("x", Some(vec![2]))])),
        )
    };
    let node = NodeIR {
        data,
        tensor_graph: TensorGraph(vec![TensorNode::Extern(inner)]),
        repeat: Some(Value::UInt(3)),
        ty: LetNodeType::Default,
    };
    let e = node.build().unwrap_err();
    assert!(matches!(e, Error::RepeatNotSupported { .. }));
}

#[test]
fn a_composite_lowers_with_defaulted_wiring() {
    let mut root = NodeRoot::new();
    let graph = Graph::new(&mut root.seed);
    let data = IRData::new("net".to_string(), graph, None, None);
    let inner = {
        let g2 = Graph::new(&mut root.seed);
        ExternIR::new(
            "leaf".to_string(),
            g2,
            Some(table(vec![("x", Some(vec![4]))])),
            Some(table(vec![("x", Some(vec![9]))])),
        )
    };
    let node = NodeIR {
        data,
        tensor_graph: TensorGraph(vec![TensorNode::Extern(inner)]),
        repeat: None,
        ty: LetNodeType::Default,
    };
    let code = node.build().expect("lowering");
    assert_eq!(code.name, "net".to_string());
    assert_eq!(code.graph.len(), 1);
    let x_in = code.input.get(&"x".to_string()).expect("input port");
    assert_eq!(x_in.id, Some(0));
    let x_out = code.output.get(&"x".to_string()).expect("output port");
    assert_eq!(x_out.id, Some(1));
}

fn exec_template(root: &mut NodeRoot) -> ExecIR {
    let mut vars: StrMap<Variable> = StrMap::new();
    vars.insert(
        "model".to_string(),
        Variable {
            name: "model".to_string(),
            ty: Some(LetType::Node(Some(LetNodeType::Default))),
            value: Some(Value::Node("A".to_string())),
        },
    );
    vars.insert(
        "epoch".to_string(),
        Variable { name: "epoch".to_string(), ty: Some(LetType::UInt), value: Some(Value::UInt(1)) },
    );
    let graph = Graph { id: root.seed.generate(), variables: vars };
    let data = IRData::new("job".to_string(), graph, None, None);
    ExecIR { data, links: vec![vec!["model".to_string()]] }
}

#[test]
fn a_program_is_assembled_with_its_scripts() {
    let mut root = NodeRoot::new();
    user_node_a(&mut root);
    root.add_extern_source("A".to_string(), "class A: pass".to_string());
    root.add_extern_source("job".to_string(), "def run(): pass".to_string());
    let ir = exec_template(&mut root);
    let mut program = ir.build(&mut root).expect("program");
    assert!(program.env.is_none());
    assert!(program.nodes.get(&"model".to_string()).is_some());
    assert!(program.graph.get(&"epoch".to_string()).is_some());
    assert_eq!(
        program.scripts.get(&"__main__".to_string()),
        Some(&"def run(): pass".to_string())
    );
    assert_eq!(program.scripts.get(&"A".to_string()), Some(&"class A: pass".to_string()));
    // the environment is stamped on by the root that built it
    let mut env: StrMap<String> = StrMap::new();
    env.insert("root".to_string(), "/tmp/n3".to_string());
    let exec_root = ExecRoot::try_new(
        env,
        ExecRootConfig { create_root_dir: None },
        DirStatus::Present { is_dir: true },
        "/tmp/n3".to_string(),
    )
    .expect("usable root");
    exec_root.attach_env(&mut program);
    let attached = program.env.expect("attached env");
    assert_eq!(attached.get(&"root".to_string()), Some(&"/tmp/n3".to_string()));
}

#[test]
fn a_node_binding_without_a_value_is_refused() {
    let mut root = NodeRoot::new();
    let mut vars: StrMap<Variable> = StrMap::new();
    vars.insert(
        "model".to_string(),
        Variable {
            name: "model".to_string(),
            ty: Some(LetType::Node(Some(LetNodeType::Default))),
            value: None,
        },
    );
    let graph = Graph { id: root.seed.generate(), variables: vars };
    let data = IRData::new("job".to_string(), graph, None, None);
    let ir = ExecIR { data, links: vec![] };
    let e = ir.build(&mut root).unwrap_err();
    assert!(matches!(e, Error::EmptyValue { .. }));
}

#[test]
fn a_node_of_the_wrong_kind_is_refused() {
    let mut root = NodeRoot::new();
    user_node_a(&mut root);
    let mut vars: StrMap<Variable> = StrMap::new();
    vars.insert(
        "model".to_string(),
        Variable {
            name: "model".to_string(),
            ty: Some(LetType::Node(Some(LetNodeType::Extern(
                n3_builder::value::ExternNodeType::Data,
            )))),
            value: Some(Value::Node("A".to_string())),
        },
    );
    let graph = Graph { id: root.seed.generate(), variables: vars };
    let data = IRData::new("job".to_string(), graph, None, None);
    let ir = ExecIR { data, links: vec![] };
    let e = ir.build(&mut root).unwrap_err();
    assert!(matches!(e, Error::MismatchedNodeType { .. }));
}

#[test]
fn the_root_directory_rules_are_enforced() {
    let env: StrMap<String> = StrMap::new();
    let p = "/tmp/n3".to_string();
    let cfg = |c: Option<bool>| ExecRootConfig { create_root_dir: c };
    assert!(ExecRoot::try_new(StrMap::new(), cfg(None), DirStatus::Present { is_dir: true }, p.clone()).is_ok());
    let e = ExecRoot::try_new(StrMap::new(), cfg(None), DirStatus::Present { is_dir: false }, p.clone())
        .unwrap_err();
    assert!(matches!(e, Error::NotDirectory { .. }));
    let e = ExecRoot::try_new(StrMap::new(), cfg(Some(false)), DirStatus::Absent, p.clone()).unwrap_err();
    assert!(matches!(e, Error::NoSuchDirectory { .. }));
    let e = ExecRoot::try_new(StrMap::new(), cfg(None), DirStatus::Absent, p.clone()).unwrap_err();
    assert!(matches!(e, Error::NoSuchDirectory { .. }));
    assert!(ExecRoot::try_new(env, cfg(Some(true)), DirStatus::Absent, p).is_ok());
}

#[test]
fn a_missing_program_template_is_refused() {
    let env: StrMap<String> = StrMap::new();
    let mut exec_root = ExecRoot::try_new(
        env,
        ExecRootConfig { create_root_dir: None },
        DirStatus::Present { is_dir: true },
        "/tmp/n3".to_string(),
    )
    .expect("usable root");
    let e = exec_root.get(&"Job".to_string()).unwrap_err();
    assert!(matches!(e, Error::NoSuchNode { .. }));
}

#[test]
fn a_program_without_its_script_is_refused() {
    let mut root = NodeRoot::new();
    user_node_a(&mut root);
    root.add_extern_source("A".to_string(), "class A: pass".to_string());
    // the program's own script is never registered
    let ir = exec_template(&mut root);
    let e = ir.build(&mut root).unwrap_err();
    assert!(matches!(e, Error::NoSuchExtern { .. }));
}

#[test]
fn trailing_dynamic_markers_are_skipped_when_output_shapes_are_read() {
    let mut root = NodeRoot::new();
    let solid = {
        let g = Graph::new(&mut root.seed);
        ExternIR::new(
            "solid".to_string(),
            g,
            None,
            Some(table(vec![("x", Some(vec![7, 7]))])),
        )
    };
    // a single unsized port named x is the pass-through marker
    let marker = {
        let g = Graph::new(&mut root.seed);
        ExternIR::new("marker".to_string(), g, None, Some(table(vec![("x", None)])))
    };
    let graph = TensorGraph(vec![TensorNode::Extern(solid), TensorNode::Extern(marker)]);
    let out = graph.get_output_shapes().expect("shapes behind the marker");
    assert_eq!(dims_of(out, "x"), Some(vec![7, 7]));
}

#[test]
fn a_composite_clone_shows_the_same_shapes() {
    let mut root = NodeRoot::new();
    let inner = {
        let g = Graph::new(&mut root.seed);
        ExternIR::new(
            "leaf".to_string(),
            g,
            Some(table(vec![("x", Some(vec![3, 32]))])),
            Some(table(vec![("x", Some(vec![3, 10]))])),
        )
    };
    let data = IRData::new("block".to_string(), Graph::new(&mut root.seed), None, None);
    let node = NodeIR {
        data,
        tensor_graph: TensorGraph(vec![TensorNode::Extern(inner)]),
        repeat: None,
        ty: LetNodeType::Default,
    };
    let mut minted: Vec<String> = Vec::new();
    let copy = node.clone_safe(&mut root.seed, &mut minted);
    assert_eq!(copy.data.name, "block".to_string());
    let original_out = node.get_output_shapes().expect("source shapes");
    let copied_out = copy.get_output_shapes().expect("copied shapes");
    assert_eq!(dims_of(original_out, "x"), Some(vec![3, 10]));
    assert_eq!(dims_of(copied_out, "x"), Some(vec![3, 10]));
}

#[test]
fn applied_variables_land_on_the_node_graph() {
    let mut root = NodeRoot::new();
    let g = Graph::new(&mut root.seed);
    let ir = ExternIR::new("leaf".to_string(), g, None, None);
    let mut node = TensorNode::Extern(ir);
    let mut vars: StrMap<Variable> = StrMap::new();
    vars.insert(
        "k".to_string(),
        Variable { name: "k".to_string(), ty: None, value: Some(Value::UInt(5)) },
    );
    node.apply_variables(vars);
    match &node {
        TensorNode::Extern(e) => {
            let bound = e.data.graph.variables.get(&"k".to_string()).expect("bound variable");
            assert_eq!(bound.value, Some(Value::UInt(5)));
        }
        TensorNode::Node(_) => panic!("variant must be kept"),
    }
}

#[test]
fn scopes_substitute_bound_variables() {
    let mut root = NodeRoot::new();
    let mut scope = Graph::new(&mut root.seed);
    scope.bind(Variable {
        name: "axis".to_string(),
        ty: None,
        value: Some(Value::Int(1)),
    });
    let resolved = scope.replace_to(Some(Value::Variable("axis".to_string())));
    assert_eq!(resolved, Some(Value::Int(1)));
    let unbound = scope.replace_to(Some(Value::Variable("other".to_string())));
    assert_eq!(unbound, Some(Value::Variable("other".to_string())));
    assert_eq!(scope.replace_to(None), None);
}

#[test]
fn chain_linking_resolves_the_nodes_being_lowered() {
    let mut root = NodeRoot::new();
    // producer: resolved output [4]; consumer: input left unsized
    let producer = {
        let g = Graph::new(&mut root.seed);
        ExternIR::new("P".to_string(), g, None, Some(table(vec![("x", Some(vec![4]))])))
    };
    let consumer = {
        let g = Graph::new(&mut root.seed);
        ExternIR::new(
            "C".to_string(),
            g,
            Some(table(vec![("x", None)])),
            Some(table(vec![("x", Some(vec![4]))])),
        )
    };
    let mut seed2 = n3_builder::seed::Seed::new();
    root.cache.store_built("P".to_string(), TensorNode::Extern(producer), &mut seed2).expect("P");
    root.cache.store_built("C".to_string(), TensorNode::Extern(consumer), &mut seed2).expect("C");
    root.add_extern_source("P".to_string(), "class P: pass".to_string());
    root.add_extern_source("C".to_string(), "class C: pass".to_string());
    root.add_extern_source("job".to_string(), "def run(): pass".to_string());
    let mut vars: StrMap<Variable> = StrMap::new();
    for (k, n) in [("p", "P"), ("c", "C")] {
        vars.insert(
            k.to_string(),
            Variable {
                name: k.to_string(),
                ty: Some(LetType::Node(Some(LetNodeType::Default))),
                value: Some(Value::Node(n.to_string())),
            },
        );
    }
    let graph = Graph { id: root.seed.generate(), variables: vars };
    let data = IRData::new("job".to_string(), graph, None, None);
    let ir = ExecIR { data, links: vec![vec!["p".to_string(), "c".to_string()]] };
    let program = ir.build(&mut root).expect("program");
    // the consumer was lowered with its input resolved by the chain
    match program.nodes.get(&"c".to_string()).expect("consumer code") {
        n3_builder::tensor::Code::Extern(code) => {
            let shapes = code.input_shapes.as_ref().expect("input table");
            assert_eq!(dims_of(shapes, "x"), Some(vec![4]));
        }
        other => panic!("unexpected code unit {:?}", other),
    }
}

#[test]
fn bindings_on_a_wrapper_reach_its_single_leaf() {
    let mut root = NodeRoot::new();
    let leaf = {
        let g = Graph::new(&mut root.seed);
        ExternIR::new("leaf".to_string(), g, None, None)
    };
    let data = IRData::new("block".to_string(), Graph::new(&mut root.seed), None, None);
    let mut node = TensorNode::Node(NodeIR {
        data,
        tensor_graph: TensorGraph(vec![TensorNode::Extern(leaf)]),
        repeat: None,
        ty: LetNodeType::Default,
    });
    let mut vars: StrMap<Variable> = StrMap::new();
    vars.insert(
        "k".to_string(),
        Variable { name: "k".to_string(), ty: None, value: Some(Value::UInt(9)) },
    );
    node.apply_variables(vars);
    match &node {
        TensorNode::Node(w) => {
            // bound on the wrapper's own scope
            let on_header = w.data.graph.variables.get(&"k".to_string()).expect("header binding");
            assert_eq!(on_header.value, Some(Value::UInt(9)));
            // and shared with the wrapped leaf's generated graph
            match &w.tensor_graph.0[0] {
                TensorNode::Extern(e) => {
                    let on_leaf =
                        e.data.graph.variables.get(&"k".to_string()).expect("leaf binding");
                    assert_eq!(on_leaf.value, Some(Value::UInt(9)));
                }
                other => panic!("unexpected node {:?}", other),
            }
        }
        other => panic!("unexpected node {:?}", other),
    }
}

#[test]
fn an_undeclared_callee_is_wired_to_the_reserved_input_id() {
    let mut root = NodeRoot::new();
    // a template with declared input ports but no input shape tables
    let graph = Graph::new(&mut root.seed);
    let mut ports: StrMap<n3_builder::value::Out> = StrMap::new();
    ports.insert("x".to_string(), n3_builder::value::Out::with_name("x".to_string()));
    let ir = ExternIR {
        data: n3_builder::tensor::IRData {
            id: 0,
            name: "Dyn".to_string(),
            graph,
            input: Some(ports),
            output: None,
        },
        input: None,
        output: None,
    };
    let mut seed2 = n3_builder::seed::Seed::new();
    root.cache.store_built("Dyn".to_string(), TensorNode::Extern(ir), &mut seed2).expect("stored");
    let mut entry = NodeEntry::new("net".to_string(), &mut root);
    GraphNodeEntry {
        node: GraphNode {
            id: 0,
            calls: vec![plain_call("Input")],
            shapes: Some(table(vec![("x", Some(vec![4]))])),
        },
    }
    .build(&mut entry, &mut root)
    .expect("input step");
    GraphNodeEntry { node: GraphNode { id: 1, calls: vec![plain_call("Dyn")], shapes: None } }
        .build(&mut entry, &mut root)
        .expect("dynamic call");
    // the appended callee's wiring is pinned to the reserved input id
    match entry.tensor_graph.0.last().expect("appended node") {
        TensorNode::Extern(e) => {
            let ins = e.data.input.as_ref().expect("wiring");
            let x = ins.get(&"x".to_string()).expect("port x");
            assert_eq!(x.id, Some(0));
            assert_eq!(x.name, "x".to_string());
        }
        other => panic!("unexpected node {:?}", other),
    }
}
