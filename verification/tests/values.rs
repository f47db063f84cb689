use n3_builder::graph::{GraphCall, GraphInputs, GraphInputsType, Shape};
use n3_builder::strmap::StrMap;
use n3_builder::value::{reduce, value_eq, values_unify, BinOp, Expr, Out, Value};

fn num(n: u64) -> Value {
    Value::UInt(n)
}

fn add(a: Value, b: Value) -> Value {
    Value::Expr(Box::new(Expr { op: BinOp::Add, lhs: a, rhs: b }))
}

fn mul(a: Value, b: Value) -> Value {
    Value::Expr(Box::new(Expr { op: BinOp::Mul, lhs: a, rhs: b }))
}

#[test]
fn fold_addition_to_a_number() {
    let v = reduce(add(num(2), num(3)));
    assert_eq!(v, Value::UInt(5));
}

#[test]
fn fold_nested_expression() {
    let v = reduce(mul(add(num(2), num(3)), num(4)));
    assert_eq!(v, Value::UInt(20));
}

#[test]
fn symbolic_values_stay_symbolic() {
    let v = reduce(add(Value::Variable("batch".to_string()), num(1)));
    assert!(matches!(v, Value::Expr(_)));
}

#[test]
fn signed_and_unsigned_agree_when_equal() {
    assert!(value_eq(&Value::UInt(5), &Value::Int(5)));
    assert!(!value_eq(&Value::UInt(5), &Value::Int(6)));
}

#[test]
fn unify_folds_before_comparing() {
    assert!(values_unify(&add(num(2), num(3)), &num(5)));
    assert!(!values_unify(&add(num(2), num(3)), &num(6)));
}

#[test]
fn shape_product_is_the_element_count() {
    let s = Shape(vec![num(2), num(3), num(4)]);
    assert_eq!(s.product(), Value::UInt(24));
    assert_eq!(s.sum(), Value::UInt(9));
}

#[test]
fn shape_product_ignores_dimension_order() {
    let a = Shape(vec![num(2), num(3), num(4)]);
    let b = Shape(vec![num(4), num(2), num(3)]);
    assert_eq!(a.product(), b.product());
}

#[test]
fn unwrap_int_reads_both_numeric_kinds() {
    assert_eq!(Value::UInt(7).unwrap_int(), Some(7));
    assert_eq!(Value::Int(-7).unwrap_int(), Some(-7));
    assert_eq!(Value::Bool(true).unwrap_int(), None);
}

#[test]
fn out_references_carry_their_placement() {
    let unplaced = Out::with_name("x".to_string());
    assert_eq!(unplaced.id, None);
    assert_eq!(unplaced.name, "x".to_string());
    let placed = Out::new(3, "x".to_string());
    assert_eq!(placed.id, Some(3));
}

#[test]
fn calls_report_how_their_inputs_were_given() {
    let bare = GraphCall { name: "A".to_string(), inputs: None, args: None, repeat: None };
    assert_eq!(bare.get_inputs_ty(), GraphInputsType::UseLast);
    let dict = GraphCall {
        name: "A".to_string(),
        inputs: Some(GraphInputs::Dict(StrMap::new())),
        args: None,
        repeat: None,
    };
    assert_eq!(dict.get_inputs_ty(), GraphInputsType::Dict);
    let list = GraphCall {
        name: "A".to_string(),
        inputs: Some(GraphInputs::List(vec![])),
        args: None,
        repeat: None,
    };
    assert_eq!(list.get_inputs_ty(), GraphInputsType::List);
    assert!(matches!(GraphInputs::default(), GraphInputs::Dict(_)));
}
