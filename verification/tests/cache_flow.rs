use n3_builder::cache::{CacheQuery, NodeCache, NodeRoot};
use n3_builder::error::Error;
use n3_builder::graph::{Shape, Shapes};
use n3_builder::seed::Seed;
use n3_builder::strmap::StrMap;
use n3_builder::tensor::{ExternIR, TensorNode};
use n3_builder::value::Value;
use n3_builder::vars::Graph;

fn table(entries: Vec<(&str, Option<Vec<u64>>)>) -> Shapes {
    let mut m: StrMap<Option<Shape>> = StrMap::new();
    for (k, dims) in entries {
        let slot = dims.map(|ds| Shape(ds.into_iter().map(Value::UInt).collect()));
        m.insert(k.to_string(), slot);
    }
    Shapes(m)
}

fn leaf_template(seed: &mut Seed, out_dims: Option<Vec<u64>>) -> TensorNode {
    let graph = Graph::new(seed);
    let ir = ExternIR::new(
        "A".to_string(),
        graph,
        Some(table(vec![("x", Some(vec![3, 32]))])),
        Some(table(vec![("x", out_dims)])),
    );
    TensorNode::Extern(ir)
}

fn output_dims(node: &TensorNode) -> Option<Vec<u64>> {
    let sh = node.get_output_shapes().expect("output table");
    let slot = sh.0.get(&"x".to_string()).expect("port x");
    slot.as_ref().map(|s| {
        s.0.iter()
            .map(|v| match v {
                Value::UInt(n) => *n,
                other => panic!("unexpected dim {:?}", other),
            })
            .collect()
    })
}

#[test]
fn unknown_names_are_refused_and_nothing_changes() {
    let mut cache = NodeCache::new(StrMap::new());
    let mut seed = Seed::new();
    cache.add_source("Known".to_string(), "node Known".to_string());
    let e = cache.get(&"Missing".to_string(), &mut seed).unwrap_err();
    assert!(matches!(e, Error::NoSuchNode { .. }));
    // the registered entry is still there, and the unknown name still fails
    let e2 = cache.get(&"Missing".to_string(), &mut seed).unwrap_err();
    assert!(matches!(e2, Error::NoSuchNode { .. }));
    match cache.get(&"Known".to_string(), &mut seed).expect("registered name") {
        CacheQuery::BuildSource { source } => assert_eq!(source, "node Known".to_string()),
        other => panic!("expected the registered source, got {:?}", kind_of(&other)),
    }
}

fn kind_of(q: &CacheQuery) -> &'static str {
    match q {
        CacheQuery::Hit(_) => "hit",
        CacheQuery::BuildSource { .. } => "source",
        CacheQuery::LoadPath { .. } => "path",
    }
}

#[test]
fn a_path_entry_is_read_once_and_then_memoized() {
    let mut cache = NodeCache::new(StrMap::new());
    let mut seed = Seed::new();
    cache.add_path("A".to_string(), "nodes/a.n3".to_string());
    // first lookup hands out the path; this is the only point at which
    // the surrounding program would touch the filesystem
    let path = match cache.get(&"A".to_string(), &mut seed).expect("path tier") {
        CacheQuery::LoadPath { path } => path,
        other => panic!("expected the path, got {}", kind_of(&other)),
    };
    assert_eq!(path, "nodes/a.n3".to_string());
    // the caller builds the template from what it read and stores it
    let built = leaf_template(&mut seed, Some(vec![3, 10]));
    let returned = cache.store_built("A".to_string(), built, &mut seed).expect("matching name");
    assert_eq!(output_dims(&returned), Some(vec![3, 10]));
    // every later lookup is answered from memory: a clone, never the path
    for _ in 0..3 {
        match cache.get(&"A".to_string(), &mut seed).expect("memoized") {
            CacheQuery::Hit(n) => assert_eq!(output_dims(&n), Some(vec![3, 10])),
            other => panic!("expected a memoized hit, got {}", kind_of(&other)),
        }
    }
}

#[test]
fn clones_are_independent_of_each_other_and_of_the_cache() {
    let mut root = NodeRoot::new();
    let template = leaf_template(&mut root.seed, None);
    let mut seed2 = Seed::new();
    root.cache.store_built("A".to_string(), template, &mut seed2).expect("matching name");
    let mut c1 = root.get_built(&"A".to_string()).expect("first clone");
    let c2 = root.get_built(&"A".to_string()).expect("second clone");
    assert_eq!(output_dims(&c1), None);
    assert_eq!(output_dims(&c2), None);
    // resolving shapes on one clone must not leak anywhere else
    c1.set_output_shapes_plain(table(vec![("x", Some(vec![5]))])).expect("set shapes");
    assert_eq!(output_dims(&c1), Some(vec![5]));
    assert_eq!(output_dims(&c2), None);
    let c3 = root.get_built(&"A".to_string()).expect("third clone");
    assert_eq!(output_dims(&c3), None);
}

#[test]
fn a_name_already_being_built_is_a_cycle() {
    let mut cache = NodeCache::new(StrMap::new());
    let mut seed = Seed::new();
    cache.add_source("Loop".to_string(), "node Loop = Loop".to_string());
    match cache.get(&"Loop".to_string(), &mut seed).expect("source tier") {
        CacheQuery::BuildSource { .. } => {},
        other => panic!("expected the source, got {}", kind_of(&other)),
    }
    // while Loop is being built, asking for it again must fail fast
    let e = cache.get(&"Loop".to_string(), &mut seed).unwrap_err();
    assert!(matches!(e, Error::CyclicNodeReference { .. }));
}

#[test]
fn a_template_under_the_wrong_name_is_refused() {
    let mut cache = NodeCache::new(StrMap::new());
    let mut seed = Seed::new();
    let built = leaf_template(&mut seed, Some(vec![1]));
    // the template declares itself as A; storing it as B must fail
    let e = cache.store_built("B".to_string(), built, &mut seed).unwrap_err();
    assert_eq!(
        e,
        Error::MismatchedName { expected: "B".to_string(), given: "A".to_string() }
    );
    // and the refused name stays unknown
    let e2 = cache.get(&"B".to_string(), &mut seed).unwrap_err();
    assert!(matches!(e2, Error::NoSuchNode { .. }));
}
