use n3_builder::error::Error;
use n3_builder::graph::{Shape, Shapes};
use n3_builder::link::link_shapes;
use n3_builder::strmap::StrMap;
use n3_builder::value::Value;

fn table(entries: Vec<(&str, Option<Vec<u64>>)>) -> Shapes {
    let mut m: StrMap<Option<Shape>> = StrMap::new();
    for (k, dims) in entries {
        let slot = dims.map(|ds| Shape(ds.into_iter().map(Value::UInt).collect()));
        m.insert(k.to_string(), slot);
    }
    Shapes(m)
}

fn dims_of(s: &Shapes, k: &str) -> Option<Vec<u64>> {
    let slot = s.0.get(&k.to_string()).expect("port must exist");
    slot.as_ref().map(|sh| {
        sh.0.iter()
            .map(|v| match v {
                Value::UInt(n) => *n,
                other => panic!("unexpected dim {:?}", other),
            })
            .collect()
    })
}

#[test]
fn linking_fills_unsized_ports_on_both_sides() {
    let mut a = table(vec![("x", Some(vec![2, 3])), ("y", None)]);
    let mut b = table(vec![("x", None), ("y", Some(vec![4]))]);
    link_shapes(&mut a, &mut b).expect("compatible tables must link");
    assert_eq!(dims_of(&a, "x"), Some(vec![2, 3]));
    assert_eq!(dims_of(&a, "y"), Some(vec![4]));
    assert_eq!(dims_of(&b, "x"), Some(vec![2, 3]));
    assert_eq!(dims_of(&b, "y"), Some(vec![4]));
}

#[test]
fn linking_again_changes_nothing() {
    let mut a = table(vec![("x", Some(vec![2, 3])), ("y", None)]);
    let mut b = table(vec![("x", None), ("y", Some(vec![4]))]);
    link_shapes(&mut a, &mut b).expect("first link");
    // the second link, in the opposite order, must be accepted and keep
    // every resolved shape as it is
    link_shapes(&mut b, &mut a).expect("second link");
    assert_eq!(dims_of(&a, "x"), Some(vec![2, 3]));
    assert_eq!(dims_of(&a, "y"), Some(vec![4]));
    assert_eq!(dims_of(&b, "x"), Some(vec![2, 3]));
    assert_eq!(dims_of(&b, "y"), Some(vec![4]));
}

#[test]
fn linking_a_resolved_table_to_its_twin_is_a_noop() {
    let mut a = table(vec![("x", Some(vec![5, 6]))]);
    let mut b = table(vec![("x", Some(vec![5, 6]))]);
    link_shapes(&mut a, &mut b).expect("equal tables must link");
    assert_eq!(dims_of(&a, "x"), Some(vec![5, 6]));
    assert_eq!(dims_of(&b, "x"), Some(vec![5, 6]));
}

#[test]
fn linking_rejects_different_port_names() {
    let mut a = table(vec![("x", Some(vec![6]))]);
    let mut b = table(vec![("y", Some(vec![6]))]);
    let e = link_shapes(&mut a, &mut b).unwrap_err();
    assert!(matches!(e, Error::MismatchedShapeKeys { .. }));
}

#[test]
fn linking_rejects_conflicting_dimensions() {
    let mut a = table(vec![("x", Some(vec![2]))]);
    let mut b = table(vec![("x", Some(vec![3]))]);
    let e = link_shapes(&mut a, &mut b).unwrap_err();
    assert!(matches!(e, Error::DifferentValues { .. }));
}

#[test]
fn linking_rejects_rank_mismatch() {
    let mut a = table(vec![("x", Some(vec![2, 3]))]);
    let mut b = table(vec![("x", Some(vec![6]))]);
    let e = link_shapes(&mut a, &mut b).unwrap_err();
    assert!(matches!(e, Error::MismatchedShapes { expected: 2, given: 1 }));
}

#[test]
fn failed_links_leave_both_tables_unchanged() {
    let mut a = table(vec![("x", Some(vec![2])), ("y", None)]);
    let mut b = table(vec![("x", Some(vec![3])), ("y", Some(vec![7]))]);
    let _ = link_shapes(&mut a, &mut b).unwrap_err();
    assert_eq!(dims_of(&a, "x"), Some(vec![2]));
    assert_eq!(dims_of(&a, "y"), None);
    assert_eq!(dims_of(&b, "y"), Some(vec![7]));
}

#[test]
fn to_outs_wires_every_port_to_the_id() {
    let s = table(vec![("a", Some(vec![1])), ("b", None)]);
    let outs = s.to_outs(7);
    let a = outs.get(&"a".to_string()).expect("port a");
    assert_eq!(a.id, Some(7));
    assert_eq!(a.name, "a".to_string());
    let b = outs.get(&"b".to_string()).expect("port b");
    assert_eq!(b.id, Some(7));
}
