//! The call expander: it turns one step of a node body into IR nodes,
//! dispatching on the built-in names and falling through to the generic
//! composite-call path.

use vstd::prelude::*;

use crate::error::Error;
use crate::graph::{GraphCall, GraphInputsType, GraphNode, Keywords, Outs, Shape, Shapes};
use crate::link::link_shapes;
use crate::seed::Seed;
use crate::strmap::StrMap;
use crate::value::{
    all_numeric, dims_eq, eval_seq, lemma_fold_ints_permutation, lemma_fold_op_eval, spec_eval,
    spec_fold_op, values_unify, BinOp, Value,
};
use crate::vars::Graph;
use vstd::string::StringExecFns;

verus! {

// --- the ToLinear kernel -------------------------------------------------

/// What a port table in the making knows of one port.
pub open spec fn dims_of_map(m: StrMap<Option<Shape>>, k: Seq<char>) -> Option<
    Option<Seq<Value>>,
> {
    match m.spec_get(k) {
        Some(o) => Some(crate::graph::oshape_view(o)),
        None => None,
    }
}

/// Flattens every resolved port shape to the single dimension that is the
/// product of its dimensions; unsized ports stay unsized.
pub fn to_linear_shapes(inputs: &Shapes) -> (r: Shapes)
    ensures
        r.0.key_seq() == inputs.0.key_seq(),
        forall|k: Seq<char>|
            #![trigger r.spec_dims(k)]
            r.spec_dims(k) == match inputs.spec_dims(k) {
                Some(Some(d)) => Some(Some(seq![spec_fold_op(d, BinOp::Mul)])),
                Some(None) => Some(None::<Seq<Value>>),
                None => None,
            },
{
    proof {
        use_type_invariant(&inputs.0);
        inputs.0.lemma_keys_unique();
    }
    let n = inputs.0.len();
    let mut m: StrMap<Option<Shape>> = StrMap::new();
    let mut i: usize = 0;
    #[verifier::loop_isolation(false)]
    while i < n
        invariant
            n == inputs.0.spec_len(),
            i <= n,
            m.key_seq() =~= inputs.0.key_seq().take(i as int),
            forall|j: int|
                #![trigger inputs.0.spec_key_at(j)]
                0 <= j < i ==> dims_of_map(m, inputs.0.spec_key_at(j)) == Some(
                    linear_slot(inputs.dims_at(j)),
                ),
        decreases n - i,
    {
        let k = inputs.0.key_at(i).clone();
        let ghost kv = k@;
        proof {
            use_type_invariant(&inputs.0);
            inputs.0.lemma_at_get(i as int);
            assert(m.spec_len() == i);
            if m.contains_key(kv) {
                let j = choose|j: int| 0 <= j < m.spec_len() && m.spec_key_at(j) == kv;
                assert(inputs.0.spec_key_at(j) == inputs.0.spec_key_at(i as int));
            }
        }
        let slot: Option<Shape> = match inputs.0.val_at(i) {
            Some(s) => {
                let p = s.product();
                let mut dims: Vec<Value> = Vec::new();
                dims.push(p);
                proof {
                    assert(dims@ =~= seq![spec_fold_op(s.0@, BinOp::Mul)]);
                }
                Some(Shape(dims))
            },
            None => None,
        };
        let ghost sv = slot;
        m.push_pair(k, slot);
        proof {
            assert(m.key_seq() =~= inputs.0.key_seq().take(i + 1));
            assert(m.spec_get(kv) == Some(sv));
            assert forall|j: int|
                #![trigger inputs.0.spec_key_at(j)]
                0 <= j < i + 1 implies dims_of_map(m, inputs.0.spec_key_at(j)) == Some(
                linear_slot(inputs.dims_at(j)),
            ) by {
                if j < i {
                    assert(inputs.0.spec_key_at(j) != kv);
                }
            }
        }
        i = i + 1;
    }
    let r = Shapes(m);
    proof {
        assert(r.0.key_seq() =~= inputs.0.key_seq());
        assert forall|k: Seq<char>|
            r.spec_dims(k) == match inputs.spec_dims(k) {
                Some(Some(d)) => Some(Some(seq![spec_fold_op(d, BinOp::Mul)])),
                Some(None) => Some(None::<Seq<Value>>),
                None => None,
            } by {
            if inputs.0.contains_key(k) {
                let j = inputs.0.index_of(k);
                assert(0 <= j < inputs.0.spec_len() && inputs.0.spec_key_at(j) == k);
                inputs.0.lemma_at_get(j);
            } else if r.0.contains_key(k) {
                let j = r.0.index_of(k);
                assert(0 <= j < r.0.spec_len() && r.0.spec_key_at(j) == k);
                assert(inputs.0.spec_key_at(j) == k);
            }
        }
    }
    r
}

/// What flattening does to one port.
pub open spec fn linear_slot(d: Option<Seq<Value>>) -> Option<Seq<Value>> {
    match d {
        Some(dims) => Some(seq![spec_fold_op(dims, BinOp::Mul)]),
        None => None,
    }
}

/// Law: the flattened size does not depend on the order of the
/// dimensions — two dimension lists with the same numbers in any order
/// fold to products that stand for the same number.
pub proof fn lemma_product_order_free(d1: Seq<Value>, d2: Seq<Value>)
    requires
        all_numeric(d1),
        all_numeric(d2),
        eval_seq(d1).to_multiset() == eval_seq(d2).to_multiset(),
    ensures
        spec_eval(spec_fold_op(d1, BinOp::Mul)) == spec_eval(spec_fold_op(d2, BinOp::Mul)),
        spec_eval(spec_fold_op(d1, BinOp::Mul)) == Some(
            crate::value::prod_ints(eval_seq(d1)),
        ),
{
    lemma_fold_op_eval(d1, BinOp::Mul);
    lemma_fold_op_eval(d2, BinOp::Mul);
    lemma_fold_ints_permutation(eval_seq(d1), eval_seq(d2), BinOp::Mul);
}

// --- the Concat kernel ---------------------------------------------------

/// The documented normalization of a concatenation axis: a non-negative
/// axis stands for itself, a negative axis `a` for `-a - rank`.
pub open spec fn spec_norm_axis(axis: int, rank: int) -> int {
    if axis < 0 {
        -axis - rank
    } else {
        axis
    }
}

/// Resolves an axis against a rank. The axis is accepted exactly when its
/// normalized value falls in `[0, rank)`; a rejected axis is reported
/// with the valid range, both clamped to what a machine word can carry.
pub fn normalize_axis(axis: i64, rank: usize) -> (r: Result<usize, Error>)
    ensures
        match r {
            Ok(a) => a == spec_norm_axis(axis as int, rank as int) && 0 <= a < rank,
            Err(e) => {
                &&& !(0 <= spec_norm_axis(axis as int, rank as int) < rank as int)
                &&& e matches Error::MismatchedAxis { val_min, val_max, given } && val_min == 0
                    && val_max == clamp_i64(rank as int - 1) && given == clamp_i64(
                    spec_norm_axis(axis as int, rank as int),
                )
            },
        },
{
    let norm: i128 = if axis < 0 {
        -(axis as i128) - (rank as i128)
    } else {
        axis as i128
    };
    if 0 <= norm && norm < rank as i128 {
        Ok(norm as usize)
    } else {
        Err(
            Error::MismatchedAxis {
                val_min: 0,
                val_max: clamp_to_i64(rank as i128 - 1),
                given: clamp_to_i64(norm),
            },
        )
    }
}

pub open spec fn clamp_i64(v: int) -> i64 {
    if v > i64::MAX as int {
        i64::MAX
    } else if v < i64::MIN as int {
        i64::MIN
    } else {
        v as i64
    }
}

fn clamp_to_i64(v: i128) -> (r: i64)
    ensures
        r == clamp_i64(v as int),
{
    if v > i64::MAX as i128 {
        i64::MAX
    } else if v < i64::MIN as i128 {
        i64::MIN
    } else {
        v as i64
    }
}

/// The dimension every input has along the axis.
pub open spec fn axis_dims(ss: Seq<Shape>, axis: int) -> Seq<Value> {
    Seq::new(ss.len(), |i: int| ss[i].0@[axis])
}

/// Whether all inputs share the first input's rank and agree with it on
/// every dimension except the axis.
pub open spec fn concat_inputs_ok(ss: Seq<Shape>, axis: int) -> bool {
    forall|i: int|
        #![trigger ss[i]]
        0 <= i < ss.len() ==> ss[i].0@.len() == ss[0].0@.len() && (forall|d: int|
            #![trigger ss[i].0@[d]]
            0 <= d < ss[0].0@.len() && d != axis ==> dims_eq(ss[i].0@[d], ss[0].0@[d]))
}

/// Concatenates resolved input shapes along an axis: every other
/// dimension must agree across the inputs and is kept; the axis dimension
/// of the result is the sum of all the inputs' axis dimensions.
#[verifier::loop_isolation(false)]
pub fn concat_shapes(shapes: &Vec<Shape>, axis: usize) -> (r: Result<Shape, Error>)
    requires
        shapes@.len() >= 1,
        axis < shapes@[0].0@.len(),
    ensures
        match r {
            Ok(s) => {
                &&& concat_inputs_ok(shapes@, axis as int)
                &&& s.0@.len() == shapes@[0].0@.len()
                &&& forall|d: int|
                    0 <= d < s.0@.len() && d != axis ==> #[trigger] s.0@[d] == shapes@[0].0@[d]
                &&& s.0@[axis as int] == spec_fold_op(axis_dims(shapes@, axis as int), BinOp::Add)
            },
            Err(e) => {
                &&& !concat_inputs_ok(shapes@, axis as int)
                &&& (e matches Error::MismatchedShapes { .. } || e matches Error::DifferentValues {
                    ..
                })
                &&& (e matches Error::MismatchedShapes { expected, given } ==> expected
                    == shapes@[0].0@.len() && given != expected)
            },
        },
{
    let rank = shapes[0].0.len();
    let n = shapes.len();
    let mut target: Vec<Value> = Vec::new();
    target.push(shapes[0].0[axis].clone());
    proof {
        assert(target@ =~= axis_dims(shapes@.take(1), axis as int));
        assert forall|d: int|
            0 <= d < rank && d != axis implies #[trigger] dims_eq(
            shapes@[0].0@[d],
            shapes@[0].0@[d],
        ) by {
            crate::value::lemma_veq_refl(crate::value::spec_reduce(shapes@[0].0@[d]));
        }
    }
    let mut i: usize = 1;
    while i < n
        invariant
            1 <= i <= n,
            target@ =~= axis_dims(shapes@.take(i as int), axis as int),
            forall|j: int|
                #![trigger shapes@[j]]
                0 <= j < i ==> shapes@[j].0@.len() == rank && (forall|d: int|
                    #![trigger shapes@[j].0@[d]]
                    0 <= d < rank && d != axis ==> dims_eq(shapes@[j].0@[d], shapes@[0].0@[d])),
        decreases n - i,
    {
        let sh = &shapes[i];
        let given = sh.0.len();
        if given != rank {
            proof {
                assert(shapes@[i as int].0@.len() != shapes@[0].0@.len());
            }
            return Err(Error::MismatchedShapes { expected: rank, given });
        }
        let mut d: usize = 0;
        while d < rank
            invariant
                d <= rank,
                forall|e: int|
                    #![trigger sh.0@[e]]
                    0 <= e < d && e != axis ==> dims_eq(sh.0@[e], shapes@[0].0@[e]),
                target@ =~= axis_dims(shapes@.take(i as int), axis as int),
            decreases rank - d,
        {
            if d != axis {
                if !values_unify(&sh.0[d], &shapes[0].0[d]) {
                    proof {
                        assert(!dims_eq(shapes@[i as int].0@[d as int], shapes@[0].0@[d as int]));
                    }
                    return Err(
                        Error::DifferentValues {
                            lhs: shapes[0].0[d].clone(),
                            rhs: sh.0[d].clone(),
                        },
                    );
                }
            }
            d = d + 1;
        }
        target.push(sh.0[axis].clone());
        proof {
            assert(target@ =~= axis_dims(shapes@.take(i + 1), axis as int));
        }
        i = i + 1;
    }
    proof {
        assert(shapes@.take(n as int) =~= shapes@);
        assert(axis_dims(shapes@.take(n as int), axis as int) =~= axis_dims(
            shapes@,
            axis as int,
        ));
    }
    let dim = Shape(target).sum();
    let mut out: Vec<Value> = Vec::new();
    let mut d: usize = 0;
    while d < rank
        invariant
            d <= rank,
            out@.len() == d,
            forall|e: int| 0 <= e < d && e != axis ==> #[trigger] out@[e] == shapes@[0].0@[e],
            d > axis ==> out@[axis as int] == spec_fold_op(
                axis_dims(shapes@, axis as int),
                BinOp::Add,
            ),
        decreases rank - d,
    {
        if d == axis {
            out.push(dim.clone());
        } else {
            out.push(shapes[0].0[d].clone());
        }
        d = d + 1;
    }
    Ok(Shape(out))
}

/// Law: the concatenated axis dimension stands for the sum of the
/// numbers the inputs' axis dimensions stand for.
pub proof fn lemma_concat_axis_sum(ss: Seq<Shape>, axis: int)
    requires
        all_numeric(axis_dims(ss, axis)),
    ensures
        spec_eval(spec_fold_op(axis_dims(ss, axis), BinOp::Add)) == Some(
            crate::value::sum_ints(eval_seq(axis_dims(ss, axis))),
        ),
{
    lemma_fold_op_eval(axis_dims(ss, axis), BinOp::Add);
}

// --- the Transform check -------------------------------------------------

/// Per-port element counts: every port must be resolved on both sides and
/// the products of its dimensions must fold to the same value.
pub open spec fn products_match(inputs: Shapes, outputs: Shapes, k: Seq<char>) -> bool {
    match (inputs.spec_dims(k), outputs.spec_dims(k)) {
        (Some(Some(di)), Some(Some(dv))) => crate::value::veq(
            spec_fold_op(di, BinOp::Mul),
            spec_fold_op(dv, BinOp::Mul),
        ),
        _ => false,
    }
}

/// The Transform admission rule: the declared output ports must be
/// exactly the input ports — a mismatch is rejected even when the total
/// element counts agree — and each shared port must keep its element
/// count.
pub fn transform_check(inputs: &Shapes, outputs: &Shapes) -> (r: Result<(), Error>)
    ensures
        match r {
            Ok(_) => {
                &&& forall|k: Seq<char>| inputs.contains_port(k) <==> outputs.contains_port(k)
                &&& forall|k: Seq<char>|
                    #![trigger inputs.spec_dims(k)]
                    inputs.contains_port(k) ==> products_match(*inputs, *outputs, k)
            },
            Err(e) => {
                &&& !((forall|k: Seq<char>| inputs.contains_port(k) <==> outputs.contains_port(k))
                    && (forall|k: Seq<char>|
                    #![trigger inputs.spec_dims(k)]
                    inputs.contains_port(k) ==> products_match(*inputs, *outputs, k)))
                &&& (!(forall|k: Seq<char>| inputs.contains_port(k) <==> outputs.contains_port(
                    k,
                )) ==> (e matches Error::MismatchedShapeKeys { .. }))
                &&& (match e {
                    Error::MismatchedShapeKeys { expected, given } => {
                        &&& expected@.len() == inputs.0.spec_len()
                        &&& (forall|i: int|
                            0 <= i < expected@.len() ==> #[trigger] expected@[i]@
                                == inputs.0.spec_key_at(i))
                        &&& given@.len() == outputs.0.spec_len()
                        &&& (forall|i: int|
                            0 <= i < given@.len() ==> #[trigger] given@[i]@
                                == outputs.0.spec_key_at(i))
                    },
                    _ => true,
                })
                &&& (e matches Error::GenericShape { name } ==> inputs.contains_port(name@) && (
                inputs.spec_dims(name@) == Some(None::<Seq<Value>>) || outputs.spec_dims(name@)
                    == Some(None::<Seq<Value>>)))
                &&& (e matches Error::MismatchedShapeKeys { .. } || e matches Error::GenericShape {
                    ..
                } || e matches Error::DifferentValues { .. })
            },
        },
{
    let keys_ok = ports_subset(inputs, outputs) && ports_subset(outputs, inputs);
    if !keys_ok {
        return Err(
            Error::MismatchedShapeKeys { expected: inputs.0.keys(), given: outputs.0.keys() },
        );
    }
    proof {
        use_type_invariant(&inputs.0);
        inputs.0.lemma_keys_unique();
    }
    let n = inputs.0.len();
    let mut i: usize = 0;
    #[verifier::loop_isolation(false)]
    while i < n
        invariant
            n == inputs.0.spec_len(),
            i <= n,
            forall|j: int|
                #![trigger inputs.0.spec_key_at(j)]
                0 <= j < i ==> products_match(*inputs, *outputs, inputs.0.spec_key_at(j)),
        decreases n - i,
    {
        let k = inputs.0.key_at(i).clone();
        let ghost kv = k@;
        proof {
            use_type_invariant(&inputs.0);
            inputs.0.lemma_at_get(i as int);
        }
        let iv = match inputs.0.val_at(i) {
            Some(s) => s,
            None => {
                proof {
                    assert(inputs.contains_port(kv));
                    assert(!products_match(*inputs, *outputs, kv));
                }
                return Err(Error::GenericShape { name: k });
            },
        };
        let ov = match outputs.0.get(&k) {
            Some(slot) => match slot {
                Some(s) => s,
                None => {
                    proof {
                        assert(inputs.contains_port(kv));
                        assert(!products_match(*inputs, *outputs, kv));
                    }
                    return Err(Error::GenericShape { name: k });
                },
            },
            None => {
                proof {
                    assert(inputs.contains_port(kv));
                    assert(false);
                }
                return Err(Error::GenericShape { name: k });
            },
        };
        let pi = iv.product();
        let po = ov.product();
        match assert_equal(pi, po) {
            Ok(_) => {},
            Err(e) => {
                proof {
                    assert(inputs.contains_port(kv));
                    assert(!products_match(*inputs, *outputs, kv));
                }
                return Err(e);
            },
        }
        i = i + 1;
    }
    proof {
        assert forall|k: Seq<char>|
            inputs.contains_port(k) implies products_match(*inputs, *outputs, k) by {
            let j = inputs.0.index_of(k);
            assert(0 <= j < inputs.0.spec_len() && inputs.0.spec_key_at(j) == k);
        }
    }
    Ok(())
}

/// Whether every port of `x` is also a port of `y`.
fn ports_subset(x: &Shapes, y: &Shapes) -> (r: bool)
    ensures
        r == forall|k: Seq<char>| #![trigger x.contains_port(k)] x.contains_port(k)
            ==> y.contains_port(k),
{
    proof {
        use_type_invariant(&x.0);
    }
    let n = x.0.len();
    let mut i: usize = 0;
    while i < n
        invariant
            n == x.0.spec_len(),
            i <= n,
            forall|j: int| 0 <= j < i ==> y.0.contains_key(x.0.spec_key_at(j)),
        decreases n - i,
    {
        let k = x.0.key_at(i);
        if !y.0.contains(k) {
            proof {
                assert(x.contains_port(x.0.spec_key_at(i as int)));
            }
            return false;
        }
        i = i + 1;
    }
    proof {
        assert forall|k: Seq<char>| x.contains_port(k) implies y.contains_port(k) by {
            let j = x.0.index_of(k);
            assert(0 <= j < x.0.spec_len() && x.0.spec_key_at(j) == k);
        }
    }
    true
}

/// Two already-folded values must agree or the step fails.
pub fn assert_equal(lhs: Value, rhs: Value) -> (r: Result<(), Error>)
    ensures
        match r {
            Ok(_) => crate::value::veq(lhs, rhs),
            Err(e) => !crate::value::veq(lhs, rhs) && e matches Error::DifferentValues { .. },
        },
{
    if crate::value::value_eq(&lhs, &rhs) {
        Ok(())
    } else {
        Err(Error::DifferentValues { lhs, rhs })
    }
}

// --- decimal keys for positional ports -----------------------------------

pub open spec fn dec_digit(d: int) -> char {
    if d == 0 {
        '0'
    } else if d == 1 {
        '1'
    } else if d == 2 {
        '2'
    } else if d == 3 {
        '3'
    } else if d == 4 {
        '4'
    } else if d == 5 {
        '5'
    } else if d == 6 {
        '6'
    } else if d == 7 {
        '7'
    } else if d == 8 {
        '8'
    } else {
        '9'
    }
}

/// The decimal spelling of a number.
pub open spec fn dec_str(n: nat) -> Seq<char>
    decreases n,
{
    if n < 10 {
        seq![dec_digit(n as int)]
    } else {
        dec_str(n / 10).push(dec_digit((n % 10) as int))
    }
}

proof fn lemma_dec_len(n: nat)
    ensures
        dec_str(n).len() >= 1,
    decreases n,
{
    if n >= 10 {
        lemma_dec_len(n / 10);
    }
}

/// Distinct numbers spell distinctly.
pub proof fn lemma_dec_str_eq(a: nat, b: nat)
    requires
        dec_str(a) == dec_str(b),
    ensures
        a == b,
    decreases a,
{
    lemma_dec_len(a);
    lemma_dec_len(b);
    if a < 10 && b < 10 {
        assert(dec_str(a)[0] == dec_digit(a as int));
        assert(dec_str(b)[0] == dec_digit(b as int));
    } else if a < 10 && b >= 10 {
        lemma_dec_len(b / 10);
        assert(dec_str(b).len() >= 2);
    } else if a >= 10 && b < 10 {
        lemma_dec_len(a / 10);
        assert(dec_str(a).len() >= 2);
    } else {
        assert(dec_str(a).last() == dec_digit((a % 10) as int));
        assert(dec_str(b).last() == dec_digit((b % 10) as int));
        assert(a % 10 == b % 10);
        assert(dec_str(a).drop_last() =~= dec_str(a / 10));
        assert(dec_str(b).drop_last() =~= dec_str(b / 10));
        lemma_dec_str_eq(a / 10, b / 10);
    }
}

fn digit_str(d: usize) -> (s: &'static str)
    requires
        d < 10,
    ensures
        s@ == seq![dec_digit(d as int)],
{
    proof {
        reveal_strlit("0");
        reveal_strlit("1");
        reveal_strlit("2");
        reveal_strlit("3");
        reveal_strlit("4");
        reveal_strlit("5");
        reveal_strlit("6");
        reveal_strlit("7");
        reveal_strlit("8");
        reveal_strlit("9");
    }
    match d {
        0 => "0",
        1 => "1",
        2 => "2",
        3 => "3",
        4 => "4",
        5 => "5",
        6 => "6",
        7 => "7",
        8 => "8",
        _ => "9",
    }
}

/// Spells a position as its decimal key.
pub fn position_key(n: usize) -> (s: String)
    ensures
        s@ == dec_str(n as nat),
    decreases n,
{
    if n < 10 {
        digit_str(n).to_owned()
    } else {
        let mut s = position_key(n / 10);
        s.append(digit_str(n % 10));
        proof {
            assert(s@ =~= dec_str((n / 10) as nat).push(dec_digit((n % 10) as int)));
        }
        s
    }
}

// --- names of the built-in steps -----------------------------------------

pub fn input_call_name() -> (s: String)
    ensures
        s@ == "Input"@,
{
    "Input".to_owned()
}

pub fn input_node_name() -> (s: String)
    ensures
        s@ == "AssertShape"@,
{
    "AssertShape".to_owned()
}

pub fn transform_name() -> (s: String)
    ensures
        s@ == "Transform"@,
{
    "Transform".to_owned()
}

pub fn to_linear_name() -> (s: String)
    ensures
        s@ == "ToLinear"@,
{
    "ToLinear".to_owned()
}

pub fn concat_name() -> (s: String)
    ensures
        s@ == "Concat"@,
{
    "Concat".to_owned()
}

pub fn axis_key() -> (s: String)
    ensures
        s@ == "axis"@,
{
    "axis".to_owned()
}

pub fn output_shapes_key() -> (s: String)
    ensures
        s@ == "output shapes"@,
{
    "output shapes".to_owned()
}

// --- the admission test on one step --------------------------------------

/// The admission rule every built-in step instantiates: exactly one call,
/// carrying the expected name, no given inputs, no keyword arguments, no
/// repeat count, with declared shapes and the reserved id exactly as the
/// step demands.
pub open spec fn builtin_step_ok(node: GraphNode, nm: Seq<char>, sized: bool, id_zero: bool) -> bool {
    &&& node.calls@.len() == 1
    &&& node.calls@[0].name@ == nm
    &&& node.calls@[0].spec_inputs_ty() == GraphInputsType::UseLast
    &&& (node.calls@[0].args matches Some(kw) ==> kw.spec_len() == 0)
    &&& (node.shapes is Some <==> sized)
    &&& node.calls@[0].repeat is None
    &&& ((node.id == 0) <==> id_zero)
}

/// The reserved input step's admission rule.
pub open spec fn input_step_ok(node: GraphNode) -> bool {
    builtin_step_ok(node, "Input"@, true, true)
}

/// A condition built for one name, no inputs and no arguments admits a
/// step exactly when the admission rule holds.
proof fn lemma_builtin_cond(c: Condition, node: GraphNode, nm: Seq<char>, sized: bool, id_zero: bool)
    requires
        c.names@.len() == 1,
        c.names@[0]@ == nm,
        c.ty_inputs == Some(GraphInputsType::UseLast),
        c.args matches Some(a) && a@.len() == 0,
        c.is_sized == Some(sized),
        c.repeatable == Some(false),
        c.is_id_zero == id_zero,
    ensures
        cond_holds(c, node) <==> builtin_step_ok(node, nm, sized, id_zero),
{
    if cond_holds(c, node) {
        assert(node.calls@[0] == node.calls@[0]);
        assert(call_args_match(node.calls@[0], c.args.unwrap()@));
    }
    if builtin_step_ok(node, nm, sized, id_zero) {
        assert forall|i: int|
            #![trigger node.calls@[i]]
            0 <= i < node.calls@.len() implies node.calls@[i].name@ == c.names@[i]@
            && node.calls@[i].spec_inputs_ty() == GraphInputsType::UseLast && call_args_match(
            node.calls@[i],
            c.args.unwrap()@,
        ) && node.calls@[i].repeat is None by {
            assert(i == 0);
        }
    }
}

/// What a built-in step demands of the calls it is handed.
pub struct Condition {
    pub names: Vec<String>,
    pub ty_inputs: Option<GraphInputsType>,
    pub args: Option<Vec<String>>,
    pub is_sized: Option<bool>,
    pub repeatable: Option<bool>,
    pub is_id_zero: bool,
}

/// A call's keyword arguments are exactly the expected names.
pub open spec fn call_args_match(call: GraphCall, expected: Seq<String>) -> bool {
    match call.args {
        None => expected.len() == 0,
        Some(kw) => kw.spec_len() == expected.len() && (forall|j: int|
            #![trigger expected[j]]
            0 <= j < expected.len() ==> kw.contains_key(expected[j]@)),
    }
}

pub open spec fn cond_holds(c: Condition, node: GraphNode) -> bool {
    &&& node.calls@.len() == c.names@.len()
    &&& forall|i: int|
        #![trigger node.calls@[i]]
        0 <= i < node.calls@.len() ==> node.calls@[i].name@ == c.names@[i]@
    &&& (c.ty_inputs matches Some(t) ==> forall|i: int|
        #![trigger node.calls@[i]]
        0 <= i < node.calls@.len() ==> node.calls@[i].spec_inputs_ty() == t)
    &&& (c.args matches Some(a) ==> forall|i: int|
        #![trigger node.calls@[i]]
        0 <= i < node.calls@.len() ==> call_args_match(node.calls@[i], a@))
    &&& (c.is_sized matches Some(b) ==> (node.shapes is Some <==> b))
    &&& (c.repeatable == Some(false) ==> forall|i: int|
        #![trigger node.calls@[i]]
        0 <= i < node.calls@.len() ==> node.calls@[i].repeat is None)
    &&& ((node.id == 0) <==> c.is_id_zero)
}

impl Condition {
    /// Admits a step or reports the first mismatch.
    #[verifier::loop_isolation(false)]
    pub fn test(&self, node: &GraphNode) -> (r: Result<(), Error>)
        ensures
            match r {
                Ok(_) => cond_holds(*self, *node),
                Err(e) => !cond_holds(*self, *node) && (e matches Error::MismatchedCallName { .. }
                    || e matches Error::MismatchedInputsType { .. } || e
                    matches Error::MismatchedArgKeys { .. } || e matches Error::UnexpectedRepeat {
                    ..
                } || e matches Error::MismatchedSize { .. } || e matches Error::MismatchedId {
                    ..
                }),
            },
    {
        if node.calls.len() != self.names.len() {
            return Err(
                Error::MismatchedCallName {
                    expected: copy_names(&self.names),
                    given: String::new(),
                },
            );
        }
        let n = node.calls.len();
        let mut i: usize = 0;
        while i < n
            invariant
                n == node.calls@.len(),
                i <= n,
                forall|j: int|
                    #![trigger node.calls@[j]]
                    0 <= j < i ==> {
                        &&& node.calls@[j].name@ == self.names@[j]@
                        &&& (self.ty_inputs matches Some(t) ==> node.calls@[j].spec_inputs_ty()
                            == t)
                        &&& (self.args matches Some(a) ==> call_args_match(node.calls@[j], a@))
                        &&& (self.repeatable == Some(false) ==> node.calls@[j].repeat is None)
                    },
            decreases n - i,
        {
            let call = &node.calls[i];
            if call.name != self.names[i] {
                return Err(
                    Error::MismatchedCallName {
                        expected: copy_names(&self.names),
                        given: call.name.clone(),
                    },
                );
            }
            match self.ty_inputs {
                Some(t) => {
                    let given = call.get_inputs_ty();
                    if given != t {
                        return Err(Error::MismatchedInputsType { expected: t, given });
                    }
                },
                None => {},
            }
            match &self.args {
                Some(a) => {
                    if !args_exactly(call, a) {
                        let given_keys = match &call.args {
                            Some(kw) => kw.keys(),
                            None => Vec::new(),
                        };
                        return Err(
                            Error::MismatchedArgKeys {
                                expected: copy_names(a),
                                given: given_keys,
                            },
                        );
                    }
                },
                None => {},
            }
            match self.repeatable {
                Some(false) => {
                    if call.repeat.is_some() {
                        return Err(Error::UnexpectedRepeat { name: call.name.clone() });
                    }
                },
                _ => {},
            }
            i = i + 1;
        }
        match self.is_sized {
            Some(b) => {
                if node.shapes.is_some() != b {
                    let nm = if n > 0 {
                        node.calls[0].name.clone()
                    } else {
                        String::new()
                    };
                    return Err(Error::MismatchedSize { name: nm, expected: b });
                }
            },
            None => {},
        }
        if (node.id == 0) != self.is_id_zero {
            let nm = if n > 0 {
                node.calls[0].name.clone()
            } else {
                String::new()
            };
            return Err(Error::MismatchedId { name: nm, expected_zero: self.is_id_zero });
        }
        Ok(())
    }
}

fn copy_names(v: &Vec<String>) -> (r: Vec<String>)
    ensures
        r@.len() == v@.len(),
        forall|i: int| 0 <= i < v@.len() ==> r@[i]@ == v@[i]@,
{
    let n = v.len();
    let mut r: Vec<String> = Vec::new();
    let mut i: usize = 0;
    while i < n
        invariant
            n == v@.len(),
            i <= n,
            r@.len() == i,
            forall|j: int| 0 <= j < i ==> r@[j]@ == v@[j]@,
        decreases n - i,
    {
        r.push(v[i].clone());
        i = i + 1;
    }
    r
}

/// Whether the call carries exactly the expected keyword names.
#[verifier::loop_isolation(false)]
fn args_exactly(call: &GraphCall, expected: &Vec<String>) -> (r: bool)
    ensures
        r == call_args_match(*call, expected@),
{
    match &call.args {
        None => expected.len() == 0,
        Some(kw) => {
            if kw.len() != expected.len() {
                return false;
            }
            let n = expected.len();
            let mut i: usize = 0;
            while i < n
                invariant
                    n == expected@.len(),
                    i <= n,
                    forall|j: int| #![trigger expected@[j]] 0 <= j < i ==> kw.contains_key(
                        expected@[j]@,
                    ),
                decreases n - i,
            {
                if !kw.contains(&expected[i]) {
                    return false;
                }
                i = i + 1;
            }
            true
        },
    }
}

// --- the build context ----------------------------------------------------

/// Resolving an `Out` reference against the running graph: a reference
/// without an id reads the graph's current output shapes; a placed
/// reference reads the output shapes of the node with that id. `None`
/// means the reference cannot be resolved.
pub open spec fn spec_node_id(n: crate::tensor::TensorNode) -> u64 {
    n.node_data().id
}

pub open spec fn find_by_id(s: Seq<crate::tensor::TensorNode>, id: u64) -> Option<int>
    decreases s.len(),
{
    if s.len() == 0 {
        None
    } else if spec_node_id(s.last()) == id {
        Some(s.len() - 1)
    } else {
        find_by_id(s.drop_last(), id)
    }
}

pub open spec fn port_dims(sh: Option<Shapes>, name: Seq<char>) -> Option<Option<Seq<Value>>> {
    match sh {
        Some(t) => t.spec_dims(name),
        None => None,
    }
}

pub open spec fn fetch_result(g: crate::tensor::TensorGraph, out: crate::value::Out) -> Option<
    Option<Seq<Value>>,
> {
    match out.id {
        None => port_dims(crate::tensor::graph_output_shapes(g), out.name@),
        Some(id) => match find_by_id(g.0@, id) {
            Some(j) => port_dims(crate::tensor::node_output_shapes(g.0@[j]), out.name@),
            None => None,
        },
    }
}

/// The mutable context while one composite body is being expanded: the
/// node's name, its variable scope, and the graph built so far.
pub struct NodeEntry {
    pub name: String,
    pub graph: Graph,
    pub tensor_graph: crate::tensor::TensorGraph,
}

impl NodeEntry {
    pub fn new(name: String, root: &mut crate::cache::NodeRoot) -> (r: Self)
        ensures
            r.name == name,
            r.tensor_graph.0@.len() == 0,
            r.graph.variables.spec_len() == 0,
    {
        let graph = Graph::new(&mut root.seed);
        NodeEntry { name, graph, tensor_graph: crate::tensor::TensorGraph(Vec::new()) }
    }

    /// Follows an `Out` reference back to the shape it carries.
    #[verifier::loop_isolation(false)]
    pub fn fetch_shape(&self, out: &crate::value::Out) -> (r: Result<Option<Shape>, Error>)
        ensures
            match r {
                Ok(slot) => fetch_result(self.tensor_graph, *out) == Some(
                    crate::graph::oshape_view(slot),
                ),
                Err(e) => fetch_result(self.tensor_graph, *out) is None && (e
                    matches Error::GenericShape { .. } || e matches Error::GenericShapes),
            },
    {
        match out.id {
            None => match self.tensor_graph.get_output_shapes() {
                Some(sh) => match sh.0.get(&out.name) {
                    Some(slot) => Ok(clone_slot(slot)),
                    None => Err(Error::GenericShape { name: out.name.clone() }),
                },
                None => Err(Error::GenericShapes),
            },
            Some(id) => {
                let n = self.tensor_graph.0.len();
                let ghost s = self.tensor_graph.0@;
                let mut j: usize = n;
                proof {
                    assert(s.take(n as int) =~= s);
                }
                while j > 0
                    invariant
                        j <= n,
                        n == s.len(),
                        find_by_id(s, id) == find_by_id(s.take(j as int), id),
                    decreases j,
                {
                    proof {
                        assert(s.take(j as int).last() == s[j - 1]);
                        assert(s.take(j as int).drop_last() =~= s.take(j - 1));
                    }
                    let node = &self.tensor_graph.0[j - 1];
                    if node_id_of(node) == id {
                        proof {
                            assert(find_by_id(s, id) == Some(j - 1));
                        }
                        match node.get_output_shapes() {
                            Some(sh) => {
                                return match sh.0.get(&out.name) {
                                    Some(slot) => Ok(clone_slot(slot)),
                                    None => Err(
                                        Error::GenericShape { name: out.name.clone() },
                                    ),
                                };
                            },
                            None => {
                                return Err(Error::GenericShapes);
                            },
                        }
                    }
                    j = j - 1;
                }
                proof {
                    assert(s.take(0) =~= Seq::<crate::tensor::TensorNode>::empty());
                }
                Err(Error::GenericShape { name: out.name.clone() })
            },
        }
    }
}

fn node_id_of(n: &crate::tensor::TensorNode) -> (r: u64)
    ensures
        r == spec_node_id(*n),
{
    match n {
        crate::tensor::TensorNode::Node(node) => node.data.id,
        crate::tensor::TensorNode::Extern(node) => node.data.id,
    }
}

/// Copies one shape slot.
fn clone_slot(slot: &Option<Shape>) -> (r: Option<Shape>)
    ensures
        crate::graph::oshape_view(r) == crate::graph::oshape_view(*slot),
{
    match slot {
        Some(s) => Some(s.clone()),
        None => None,
    }
}

// --- dispatch and the step builder ----------------------------------------

/// How one step is handled, decided once from its id and first call name.
#[derive(Clone, Copy, Debug, PartialEq, Eq, Structural)]
pub enum Dispatch {
    Input,
    Transform,
    ToLinear,
    Concat,
    Default,
}

pub open spec fn spec_dispatch(node: GraphNode) -> Dispatch {
    if node.id == 0 {
        Dispatch::Input
    } else if node.calls@.len() == 0 {
        Dispatch::Default
    } else if node.calls@[0].name@ == "Transform"@ {
        Dispatch::Transform
    } else if node.calls@[0].name@ == "ToLinear"@ {
        Dispatch::ToLinear
    } else if node.calls@[0].name@ == "Concat"@ {
        Dispatch::Concat
    } else {
        Dispatch::Default
    }
}

/// One step of a node body waiting to be expanded into the running graph.
pub struct GraphNodeEntry {
    pub node: GraphNode,
}

impl GraphNodeEntry {
    /// Expands this step into the running graph: the reserved input step
    /// and the built-in calls each append one leaf; any other step runs
    /// the generic composite-call path, appending one resolved callee per
    /// call.
    pub fn build(
        self,
        entry: &mut NodeEntry,
        root: &mut crate::cache::NodeRoot,
    ) -> (r: Result<(), Error>)
        ensures
            final(entry).name == old(entry).name,
            final(entry).graph == old(entry).graph,
            final(entry).tensor_graph.0@.len() >= old(entry).tensor_graph.0@.len(),
            forall|i: int|
                #![trigger final(entry).tensor_graph.0@[i]]
                0 <= i < old(entry).tensor_graph.0@.len() ==> final(entry).tensor_graph.0@[i]
                    == old(entry).tensor_graph.0@[i],
            match spec_dispatch(self.node) {
                Dispatch::Input => {
                    &&& (r is Ok <==> input_step_ok(self.node))
                    &&& (r is Err ==> *final(entry) == *old(entry) && *final(root) == *old(root))
                    &&& (r is Ok ==> final(entry).tensor_graph.0@ == old(entry).tensor_graph.0@.push(
                        final(entry).tensor_graph.0@.last(),
                    ) && (final(entry).tensor_graph.0@.last()
                        matches crate::tensor::TensorNode::Extern(e) && e.data.name@
                        == "AssertShape"@ && e.output == self.node.shapes))
                },
                Dispatch::Transform => {
                    &&& (r is Ok <==> builtin_step_ok(self.node, "Transform"@, true, false)
                        && crate::tensor::graph_output_shapes(old(entry).tensor_graph) is Some
                        && self_transform_ok(
                        self.node,
                        crate::tensor::graph_output_shapes(old(entry).tensor_graph),
                    ))
                    &&& (r matches Err(e) ==> ((builtin_step_ok(self.node, "Transform"@, true, false)
                        && crate::tensor::graph_output_shapes(old(entry).tensor_graph) is None)
                        ==> (e matches Error::GenericShapes)))
                    &&& (r matches Err(e) ==> (match (
                        crate::tensor::graph_output_shapes(old(entry).tensor_graph),
                        self.node.shapes,
                    ) {
                        (Some(ins), Some(outs)) => (builtin_step_ok(
                            self.node,
                            "Transform"@,
                            true,
                            false,
                        ) && !(forall|k: Seq<char>|
                            ins.contains_port(k) <==> outs.contains_port(k))) ==> (e
                            matches Error::MismatchedShapeKeys { .. }),
                        _ => true,
                    }))
                    &&& (r is Err ==> *final(entry) == *old(entry) && *final(root) == *old(root))
                    &&& (r is Ok ==> final(entry).tensor_graph.0@ == old(entry).tensor_graph.0@.push(
                        final(entry).tensor_graph.0@.last(),
                    ) && (final(entry).tensor_graph.0@.last()
                        matches crate::tensor::TensorNode::Extern(e) && e.data.name@ == "Transform"@
                        && e.output == self.node.shapes))
                },
                Dispatch::ToLinear => {
                    &&& (r is Ok <==> builtin_step_ok(self.node, "ToLinear"@, false, false)
                        && crate::tensor::graph_output_shapes(old(entry).tensor_graph) is Some)
                    &&& (r matches Err(e) ==> ((builtin_step_ok(self.node, "ToLinear"@, false, false)
                        && crate::tensor::graph_output_shapes(old(entry).tensor_graph) is None)
                        ==> (e matches Error::GenericShapes)))
                    &&& (r is Err ==> *final(entry) == *old(entry) && *final(root) == *old(root))
                    &&& (r is Ok ==> final(entry).tensor_graph.0@ == old(entry).tensor_graph.0@.push(
                        final(entry).tensor_graph.0@.last(),
                    ) && (final(entry).tensor_graph.0@.last()
                        matches crate::tensor::TensorNode::Extern(e) && e.data.name@ == "Transform"@
                        && (match (
                        crate::tensor::graph_output_shapes(old(entry).tensor_graph),
                        e.output,
                    ) {
                        (Some(ins), Some(outs)) => {
                            &&& outs.0.key_seq() == ins.0.key_seq()
                            &&& forall|k: Seq<char>|
                                #![trigger outs.spec_dims(k)]
                                outs.spec_dims(k) == match ins.spec_dims(k) {
                                    Some(Some(d)) => Some(Some(seq![spec_fold_op(d, BinOp::Mul)])),
                                    Some(None) => Some(None::<Seq<Value>>),
                                    None => None,
                                }
                        },
                        _ => false,
                    })))
                },
                Dispatch::Concat => {
                    &&& (r is Ok <==> concat_step_ok(
                        self.node,
                        old(entry).graph,
                        old(entry).tensor_graph,
                    ))
                    &&& (r matches Err(e) ==> concat_error_ok(
                        self.node,
                        old(entry).graph,
                        old(entry).tensor_graph,
                        e,
                    ))
                    &&& (r is Err ==> *final(entry) == *old(entry) && *final(root) == *old(root))
                    &&& (r is Ok ==> final(entry).tensor_graph.0@ == old(entry).tensor_graph.0@.push(
                        final(entry).tensor_graph.0@.last(),
                    ) && (final(entry).tensor_graph.0@.last()
                        matches crate::tensor::TensorNode::Extern(e) && concat_leaf_ok(
                        old(entry).tensor_graph,
                        old(entry).graph,
                        self.node,
                        e,
                    )))
                },
                Dispatch::Default => {
                    &&& (r is Ok ==> final(entry).tensor_graph.0@.len() == old(
                        entry,
                    ).tensor_graph.0@.len() + self.node.calls@.len())
                    &&& forall|i: int|
                        #![trigger final(entry).tensor_graph.0@[i].node_data()]
                        old(entry).tensor_graph.0@.len() <= i < final(entry).tensor_graph.0@.len()
                            ==> final(entry).tensor_graph.0@[i].node_data().id == self.node.id
                    &&& (r is Ok ==> forall|i: int|
                        #![trigger self.node.calls@[i]]
                        0 <= i < self.node.calls@.len() ==> default_call_wired(
                            old(root).cache.spec_built(),
                            self.node.calls@[i],
                            old(entry).tensor_graph.0@.len() + i > 0,
                            final(entry).tensor_graph.0@[old(entry).tensor_graph.0@.len() + i],
                        ))
                },
            },
    {
        let ghost nodev = self.node;
        let is_input = self.node.id == 0;
        if is_input {
            proof {
                assert(spec_dispatch(nodev) == Dispatch::Input);
            }
            return build_input(self.node, entry, root);
        }
        if self.node.calls.len() == 0 {
            proof {
                assert(spec_dispatch(nodev) == Dispatch::Default);
            }
            return build_default(self.node, entry, root);
        }
        let first = &self.node.calls[0];
        if first.name == transform_name() {
            proof {
                assert(spec_dispatch(nodev) == Dispatch::Transform);
            }
            build_transform(self.node, entry, root, false)
        } else if first.name == to_linear_name() {
            proof {
                assert(spec_dispatch(nodev) == Dispatch::ToLinear);
            }
            build_transform(self.node, entry, root, true)
        } else if first.name == concat_name() {
            proof {
                assert(spec_dispatch(nodev) == Dispatch::Concat);
            }
            build_concat(self.node, entry, root)
        } else {
            proof {
                assert(spec_dispatch(nodev) == Dispatch::Default);
            }
            build_default(self.node, entry, root)
        }
    }
}

/// The reserved input step: checked, then materialized as a leaf whose
/// output shapes are the declared ones.
fn build_input(
    node: GraphNode,
    entry: &mut NodeEntry,
    root: &mut crate::cache::NodeRoot,
) -> (r: Result<(), Error>)
    requires
        node.id == 0,
    ensures
        final(entry).name == old(entry).name,
        final(entry).graph == old(entry).graph,
        r is Ok <==> input_step_ok(node),
        r is Ok ==> {
            &&& final(entry).tensor_graph.0@ == old(entry).tensor_graph.0@.push(
                final(entry).tensor_graph.0@.last(),
            )
            &&& node.shapes is Some
            &&& final(entry).tensor_graph.0@.last() matches crate::tensor::TensorNode::Extern(e)
                && e.data.name@ == "AssertShape"@ && e.output == node.shapes && e.input is None
                && e.data.input is None
        },
        r is Err ==> *final(entry) == *old(entry) && *final(root) == *old(root),
        r matches Err(e) ==> (e matches Error::MismatchedCallName { .. } || e
            matches Error::MismatchedInputsType { .. } || e matches Error::MismatchedArgKeys { .. }
            || e matches Error::UnexpectedRepeat { .. } || e matches Error::MismatchedSize { .. }
            || e matches Error::MismatchedId { .. }),
{
    let mut names: Vec<String> = Vec::new();
    names.push(input_call_name());
    let cond = Condition {
        names,
        ty_inputs: Some(GraphInputsType::UseLast),
        args: Some(Vec::new()),
        is_sized: Some(true),
        repeatable: Some(false),
        is_id_zero: true,
    };
    proof {
        lemma_builtin_cond(cond, node, "Input"@, true, true);
    }
    match cond.test(&node) {
        Ok(_) => {},
        Err(e) => {
            return Err(e);
        },
    }
    let graph = Graph::new(&mut root.seed);
    let ir = crate::tensor::ExternIR::new(input_node_name(), graph, None, node.shapes);
    entry.tensor_graph.0.push(crate::tensor::TensorNode::Extern(ir));
    Ok(())
}

/// The shared Transform / ToLinear step: inputs are the running graph's
/// current output shapes; ToLinear computes its outputs by flattening,
/// Transform takes the declared ones and holds them to the same ports
/// and the same element counts.
fn build_transform(
    node: GraphNode,
    entry: &mut NodeEntry,
    root: &mut crate::cache::NodeRoot,
    linear: bool,
) -> (r: Result<(), Error>)
    ensures
        final(entry).name == old(entry).name,
        final(entry).graph == old(entry).graph,
        r is Ok <==> (builtin_step_ok(
            node,
            if linear {
                "ToLinear"@
            } else {
                "Transform"@
            },
            !linear,
            false,
        ) && crate::tensor::graph_output_shapes(old(entry).tensor_graph) is Some && (linear
            || self_transform_ok(node, crate::tensor::graph_output_shapes(old(entry).tensor_graph)))),
        r is Err ==> *final(entry) == *old(entry) && *final(root) == *old(root),
        r matches Err(e) ==> ((builtin_step_ok(
            node,
            if linear {
                "ToLinear"@
            } else {
                "Transform"@
            },
            !linear,
            false,
        ) && crate::tensor::graph_output_shapes(old(entry).tensor_graph) is None) ==> (e
            matches Error::GenericShapes)),
        r matches Err(e) ==> (match (
            crate::tensor::graph_output_shapes(old(entry).tensor_graph),
            node.shapes,
        ) {
            (Some(ins), Some(outs)) => (builtin_step_ok(node, "Transform"@, true, false) && !linear
                && !(forall|k: Seq<char>| ins.contains_port(k) <==> outs.contains_port(k))) ==> (e
                matches Error::MismatchedShapeKeys { .. }),
            _ => true,
        }),
        r is Ok ==> {
            &&& final(entry).tensor_graph.0@ == old(entry).tensor_graph.0@.push(
                final(entry).tensor_graph.0@.last(),
            )
            &&& !linear ==> (final(entry).tensor_graph.0@.last()
                matches crate::tensor::TensorNode::Extern(e) && e.data.name@ == "Transform"@
                && e.output == node.shapes)
            &&& linear ==> (final(entry).tensor_graph.0@.last()
                matches crate::tensor::TensorNode::Extern(e) && e.data.name@ == "Transform"@ && (
            match (crate::tensor::graph_output_shapes(old(entry).tensor_graph), e.output) {
                (Some(ins), Some(outs)) => {
                    &&& outs.0.key_seq() == ins.0.key_seq()
                    &&& forall|k: Seq<char>|
                        #![trigger outs.spec_dims(k)]
                        outs.spec_dims(k) == match ins.spec_dims(k) {
                            Some(Some(d)) => Some(Some(seq![spec_fold_op(d, BinOp::Mul)])),
                            Some(None) => Some(None::<Seq<Value>>),
                            None => None,
                        }
                },
                _ => false,
            }))
        },
{
    let mut names: Vec<String> = Vec::new();
    if linear {
        names.push(to_linear_name());
    } else {
        names.push(transform_name());
    }
    let cond = Condition {
        names,
        ty_inputs: Some(GraphInputsType::UseLast),
        args: Some(Vec::new()),
        is_sized: Some(!linear),
        repeatable: Some(false),
        is_id_zero: false,
    };
    proof {
        if linear {
            lemma_builtin_cond(cond, node, "ToLinear"@, false, false);
        } else {
            lemma_builtin_cond(cond, node, "Transform"@, true, false);
        }
    }
    match cond.test(&node) {
        Ok(_) => {},
        Err(e) => {
            return Err(e);
        },
    }
    let ghost orig_opt = crate::tensor::graph_output_shapes(entry.tensor_graph);
    let ghost shapes0 = node.shapes;
    let inputs: Shapes = match entry.tensor_graph.get_output_shapes() {
        Some(sh) => sh.clone(),
        None => {
            return Err(Error::GenericShapes);
        },
    };
    proof {
        assert(orig_opt matches Some(orig) && inputs.0.key_seq() == orig.0.key_seq()
            && inputs.same_view(&orig));
    }
    proof {
        let orig = orig_opt.unwrap();
        assert forall|k: Seq<char>|
            orig.contains_port(k) <==> inputs.contains_port(k) by {
            if orig.0.contains_key(k) {
                let j = orig.0.index_of(k);
                assert(0 <= j < orig.0.spec_len() && orig.0.spec_key_at(j) == k);
                assert(inputs.0.spec_key_at(j) == k);
            }
            if inputs.0.contains_key(k) {
                let j = inputs.0.index_of(k);
                assert(0 <= j < inputs.0.spec_len() && inputs.0.spec_key_at(j) == k);
                assert(orig.0.spec_key_at(j) == k);
            }
        }
        assert forall|k: Seq<char>| #![trigger orig.spec_dims(k)]
            orig.spec_dims(k) == inputs.spec_dims(k) by {}
    }
    let outputs: Shapes = if linear {
        to_linear_shapes(&inputs)
    } else {
        match node.shapes {
            Some(sh) => sh,
            None => {
                proof {
                    assert(false);
                }
                return Err(Error::GenericShapes);
            },
        }
    };
    if !linear {
        match transform_check(&inputs, &outputs) {
            Ok(_) => {},
            Err(e) => {
                proof {
                    let orig = orig_opt.unwrap();
                    match shapes0 {
                        Some(outs_decl) => {
                            if !(forall|k: Seq<char>|
                                orig.contains_port(k) <==> outs_decl.contains_port(k)) {
                                assert(!(forall|k: Seq<char>|
                                    inputs.contains_port(k) <==> outputs.contains_port(k)));
                            }
                        },
                        None => {},
                    }
                    if self_transform_ok(node, orig_opt) {
                        assert forall|k: Seq<char>|
                            inputs.contains_port(k) implies products_match(
                            inputs,
                            outputs,
                            k,
                        ) by {
                            assert(products_match(orig, outputs, k));
                        }
                        assert(forall|k: Seq<char>|
                            inputs.contains_port(k) <==> outputs.contains_port(k));
                        assert(false);
                    }
                }
                return Err(e);
            },
        }
    }
    // the generated sub-graph names the output-shapes slot; the resolved
    // tables themselves ride on the leaf and on its lowered code unit
    let graph = Graph::with_one_var(&mut root.seed, output_shapes_key(), None);
    let ir = crate::tensor::ExternIR::new(
        transform_name(),
        graph,
        Some(inputs),
        Some(outputs),
    );
    entry.tensor_graph.0.push(crate::tensor::TensorNode::Extern(ir));
    Ok(())
}

/// What a passed Transform step settles: the declared output ports are
/// exactly the current ones, with the same element count per port.
pub open spec fn self_transform_ok(node: GraphNode, current: Option<Shapes>) -> bool {
    match (current, node.shapes) {
        (Some(ins), Some(outs)) => {
            &&& (forall|k: Seq<char>| ins.contains_port(k) <==> outs.contains_port(k))
            &&& forall|k: Seq<char>|
                #![trigger ins.spec_dims(k)]
                ins.contains_port(k) ==> products_match(ins, outs, k)
        },
        _ => false,
    }
}

/// The Concat step's admission rule: exactly one call named for the
/// intrinsic, list-typed inputs, exactly the `axis` keyword, no declared
/// shapes, no repeat count, off the reserved input id.
pub open spec fn concat_admission(node: GraphNode) -> bool {
    &&& node.calls@.len() == 1
    &&& node.calls@[0].name@ == "Concat"@
    &&& node.calls@[0].spec_inputs_ty() == GraphInputsType::List
    &&& (node.calls@[0].args matches Some(kw) && kw.spec_len() == 1 && kw.contains_key("axis"@))
    &&& node.shapes is None
    &&& node.calls@[0].repeat is None
    &&& node.id != 0
}

/// A condition built for the Concat step admits exactly per the rule.
proof fn lemma_concat_cond(c: Condition, node: GraphNode)
    requires
        c.names@.len() == 1,
        c.names@[0]@ == "Concat"@,
        c.ty_inputs == Some(GraphInputsType::List),
        c.args matches Some(a) && a@.len() == 1 && a@[0]@ == "axis"@,
        c.is_sized == Some(false),
        c.repeatable == Some(false),
        c.is_id_zero == false,
    ensures
        cond_holds(c, node) <==> concat_admission(node),
{
    if cond_holds(c, node) {
        assert(node.calls@[0] == node.calls@[0]);
        assert(call_args_match(node.calls@[0], c.args.unwrap()@));
        assert(c.args.unwrap()@[0] == c.args.unwrap()@[0]);
    }
    if concat_admission(node) {
        assert forall|i: int|
            #![trigger node.calls@[i]]
            0 <= i < node.calls@.len() implies node.calls@[i].name@ == c.names@[i]@
            && node.calls@[i].spec_inputs_ty() == GraphInputsType::List && call_args_match(
            node.calls@[i],
            c.args.unwrap()@,
        ) && node.calls@[i].repeat is None by {
            assert(i == 0);
            assert forall|j: int|
                #![trigger c.args.unwrap()@[j]]
                0 <= j < c.args.unwrap()@.len() implies node.calls@[0].args.unwrap().contains_key(
                c.args.unwrap()@[j]@,
            ) by {
                assert(j == 0);
            }
        }
    }
}

/// All dimension lists share the first one's rank and agree with it on
/// every dimension but the axis.
pub open spec fn concat_dims_ok(ds: Seq<Seq<Value>>, axis: int) -> bool {
    forall|i: int|
        #![trigger ds[i]]
        0 <= i < ds.len() ==> ds[i].len() == ds[0].len() && (forall|d: int|
            #![trigger ds[i][d]]
            0 <= d < ds[0].len() && d != axis ==> dims_eq(ds[i][d], ds[0][d]))
}

/// The dimensions each listed input resolves to; empty where one does not.
pub open spec fn concat_fetched(g0: crate::tensor::TensorGraph, list: Seq<crate::value::Out>) -> Seq<
    Seq<Value>,
> {
    Seq::new(
        list.len(),
        |i: int|
            match fetched_dims(g0, list[i]) {
                Some(d) => d,
                None => Seq::empty(),
            },
    )
}

/// When the whole Concat step succeeds: it is admitted, its axis argument
/// resolves to an integer, the list is non-empty, every reference fetches
/// a resolved shape, the normalized axis is in range, and the inputs
/// agree off the axis.
pub open spec fn concat_step_ok(node: GraphNode, scope: Graph, g0: crate::tensor::TensorGraph) -> bool {
    &&& concat_admission(node)
    &&& concat_axis_arg(node, scope) is Some
    &&& (concat_list(node) matches Some(list) && {
        let a0 = concat_axis_arg(node, scope).unwrap();
        let ds = concat_fetched(g0, list);
        let a = spec_norm_axis(a0 as int, ds[0].len() as int);
        &&& list.len() >= 1
        &&& (forall|i: int| #![trigger list[i]] 0 <= i < list.len() ==> fetched_dims(
            g0,
            list[i],
        ) is Some)
        &&& 0 <= a < ds[0].len()
        &&& concat_dims_ok(ds, a)
    })
}

/// The list of upstream references a Concat step names, when it names one.
pub open spec fn concat_list(node: GraphNode) -> Option<Seq<crate::value::Out>> {
    if node.calls@.len() >= 1 {
        match node.calls@[0].inputs {
            Some(crate::graph::GraphInputs::List(l)) => Some(l@),
            _ => None,
        }
    } else {
        None
    }
}

/// The integer the step's `axis` argument resolves to against a scope,
/// after substitution and folding.
pub open spec fn concat_axis_arg(node: GraphNode, scope: Graph) -> Option<i64> {
    if node.calls@.len() >= 1 {
        match node.calls@[0].args {
            Some(kw) => match kw.spec_get("axis"@) {
                Some(v) => crate::value::spec_reduce(
                    crate::vars::spec_subst(scope.variables, v),
                ).spec_unwrap_int(),
                None => None,
            },
            None => None,
        }
    } else {
        None
    }
}

/// The dimensions an upstream reference resolves to, when it resolves.
pub open spec fn fetched_dims(g: crate::tensor::TensorGraph, o: crate::value::Out) -> Option<
    Seq<Value>,
> {
    match fetch_result(g, o) {
        Some(Some(d)) => Some(d),
        _ => None,
    }
}

/// Which failure a refused Concat step reports, cause by cause: the
/// admission checker's own errors; a non-integer axis; an empty list; an
/// unresolved first or later input; an axis out of range, reported with
/// the valid range; and disagreeing inputs.
pub open spec fn concat_error_ok(
    node: GraphNode,
    scope: Graph,
    g0: crate::tensor::TensorGraph,
    e: Error,
) -> bool {
    &&& (!concat_admission(node) ==> (e matches Error::MismatchedCallName { .. } || e
        matches Error::MismatchedInputsType { .. } || e matches Error::MismatchedArgKeys { .. }
        || e matches Error::UnexpectedRepeat { .. } || e matches Error::MismatchedSize { .. } || e
        matches Error::MismatchedId { .. }))
    &&& ((concat_admission(node) && concat_axis_arg(node, scope) is None) ==> e
        matches Error::MismatchedArgType { .. })
    &&& (match concat_list(node) {
        Some(list) => {
            let pre = concat_admission(node) && concat_axis_arg(node, scope) is Some;
            let fetch_ok = forall|j: int|
                #![trigger list[j]]
                0 <= j < list.len() ==> fetch_result(g0, list[j]) is Some;
            let resolved_ok = forall|j: int|
                #![trigger list[j]]
                0 <= j < list.len() ==> fetched_dims(g0, list[j]) is Some;
            let ds = concat_fetched(g0, list);
            let a = spec_norm_axis(
                concat_axis_arg(node, scope).unwrap() as int,
                ds[0].len() as int,
            );
            &&& ((pre && list.len() == 0) ==> e matches Error::EmptyInputs)
            &&& ((pre && list.len() >= 1 && fetch_ok && fetched_dims(g0, list[0]) is None) ==> e
                matches Error::GenericShapes)
            &&& (forall|i: int|
                #![trigger list[i]]
                (pre && fetch_ok && 1 <= i < list.len() && (forall|j: int|
                    0 <= j < i ==> fetched_dims(g0, #[trigger] list[j]) is Some)
                    && fetched_dims(g0, list[i]) is None) ==> (e
                    matches Error::GenericListInputShape { index } && index == i))
            &&& ((pre && list.len() >= 1 && resolved_ok && !(0 <= a < ds[0].len())) ==> e
                == Error::MismatchedAxis {
                val_min: 0,
                val_max: clamp_i64(ds[0].len() as int - 1),
                given: clamp_i64(a),
            })
            &&& ((pre && list.len() >= 1 && resolved_ok && 0 <= a < ds[0].len()
                && !concat_dims_ok(ds, a)) ==> ((e matches Error::MismatchedShapes { .. } || e
                matches Error::DifferentValues { .. }) && (e matches Error::MismatchedShapes {
                expected,
                given,
            } ==> expected == ds[0].len() && given != expected)))
        },
        None => true,
    })
}

/// What the leaf a passed Concat step appends holds, in terms of the step
/// itself and the graph state it read: its variable graph stores the
/// normalized axis; its input table keys the fetched input shapes by
/// position; its single output port `x` keeps every non-axis dimension of
/// the first input and sums all the inputs' axis dimensions.
pub open spec fn concat_leaf_ok(
    g0: crate::tensor::TensorGraph,
    scope: Graph,
    node: GraphNode,
    e: crate::tensor::ExternIR,
) -> bool {
    match (concat_list(node), concat_axis_arg(node, scope)) {
        (Some(list), Some(a0)) => {
            let d0 = match fetched_dims(g0, list[0]) {
                Some(d) => d,
                None => Seq::empty(),
            };
            let a = spec_norm_axis(a0 as int, d0.len() as int);
            &&& list.len() >= 1
            &&& (forall|i: int| #![trigger list[i]] 0 <= i < list.len() ==> fetched_dims(
                g0,
                list[i],
            ) is Some)
            &&& 0 <= a < d0.len()
            &&& e.data.name@ == "Concat"@
            &&& (e.data.graph.variables.spec_get("axis"@) matches Some(var) && var.value == Some(
                Value::Int(a as i64),
            ))
            &&& (e.input matches Some(ins) && ins.0.spec_len() == list.len() && (forall|i: int|
                #![trigger ins.dims_at(i)]
                0 <= i < list.len() ==> ins.0.spec_key_at(i) == dec_str(i as nat) && ins.dims_at(i)
                    == fetched_dims(g0, list[i])))
            &&& (e.output matches Some(outs) && outs.0.spec_len() == 1 && (outs.spec_dims("x"@)
                matches Some(Some(d)) && d.len() == d0.len() && (forall|j: int|
                #![trigger d[j]]
                0 <= j < d0.len() && j != a ==> d[j] == d0[j]) && d[a] == spec_fold_op(
                Seq::new(
                    list.len(),
                    |i: int|
                        match fetched_dims(g0, list[i]) {
                            Some(di) => di[a],
                            None => d0[a],
                        },
                ),
                BinOp::Add,
            )))
        },
        _ => false,
    }
}

/// The Concat step: list inputs, one `axis` argument, at least one input;
/// all inputs must share a rank and agree off the axis; the single output
/// port `x` carries the concatenated shape.
#[verifier::loop_isolation(false)]
fn build_concat(
    node: GraphNode,
    entry: &mut NodeEntry,
    root: &mut crate::cache::NodeRoot,
) -> (r: Result<(), Error>)
    ensures
        final(entry).name == old(entry).name,
        final(entry).graph == old(entry).graph,
        r is Ok <==> concat_step_ok(node, old(entry).graph, old(entry).tensor_graph),
        r is Err ==> *final(entry) == *old(entry) && *final(root) == *old(root),
        r matches Err(e) ==> concat_error_ok(node, old(entry).graph, old(entry).tensor_graph, e),
        r is Ok ==> {
            &&& final(entry).tensor_graph.0@ == old(entry).tensor_graph.0@.push(
                final(entry).tensor_graph.0@.last(),
            )
            &&& final(entry).tensor_graph.0@.last() matches crate::tensor::TensorNode::Extern(e)
                && concat_leaf_ok(old(entry).tensor_graph, old(entry).graph, node, e)
        },
{
    let ghost node0 = node;
    let mut names: Vec<String> = Vec::new();
    names.push(concat_name());
    let mut arg_names: Vec<String> = Vec::new();
    arg_names.push(axis_key());
    let cond = Condition {
        names,
        ty_inputs: Some(GraphInputsType::List),
        args: Some(arg_names),
        is_sized: Some(false),
        repeatable: Some(false),
        is_id_zero: false,
    };
    proof {
        lemma_concat_cond(cond, node);
    }
    match cond.test(&node) {
        Ok(_) => {},
        Err(e) => {
            return Err(e);
        },
    }
    let GraphNode { id: _, mut calls, shapes: _ } = node;
    let call = match calls.pop() {
        Some(c) => c,
        None => {
            proof {
                assert(false);
            }
            return Err(Error::EmptyInputs);
        },
    };
    proof {
        assert(node0.calls@.len() == 1);
        assert(call == node0.calls@[0]);
    }
    let call_name = call.name;
    // the axis argument, resolved against the scope and folded
    let axis_val: Value = match call.args {
        Some(mut kw) => match kw.remove(&axis_key()) {
            Some(v) => v,
            None => {
                proof {
                    assert(false);
                }
                return Err(
                    Error::MismatchedArgType {
                        expected: crate::value::LetType::UInt,
                        given: crate::value::LetType::Variable,
                    },
                );
            },
        },
        None => {
            proof {
                assert(false);
            }
            return Err(
                Error::MismatchedArgType {
                    expected: crate::value::LetType::UInt,
                    given: crate::value::LetType::Variable,
                },
            );
        },
    };
    let axis_res = match entry.graph.replace_to(Some(axis_val)) {
        Some(v) => crate::value::reduce(v),
        None => {
            proof {
                assert(false);
            }
            return Err(
                Error::MismatchedArgType {
                    expected: crate::value::LetType::UInt,
                    given: crate::value::LetType::Variable,
                },
            );
        },
    };
    let axis_int: i64 = match axis_res.unwrap_int() {
        Some(a) => a,
        None => {
            proof {
                assert(concat_axis_arg(node0, entry.graph) is None);
            }
            return Err(
                Error::MismatchedArgType {
                    expected: crate::value::LetType::UInt,
                    given: axis_res.ty(),
                },
            );
        },
    };
    proof {
        assert(concat_axis_arg(node0, entry.graph) == Some(axis_int));
    }
    // the list inputs, each resolved to a shape
    let outs_list: Vec<crate::value::Out> = match call.inputs {
        Some(inp) => match inp.unwrap_list() {
            Some(l) => l,
            None => {
                proof {
                    assert(false);
                }
                return Err(
                    Error::MismatchedInputsType {
                        expected: GraphInputsType::List,
                        given: GraphInputsType::Dict,
                    },
                );
            },
        },
        None => {
            proof {
                assert(false);
            }
            return Err(
                Error::MismatchedInputsType {
                    expected: GraphInputsType::List,
                    given: GraphInputsType::UseLast,
                },
            );
        },
    };
    proof {
        assert(concat_list(node0) == Some(outs_list@));
    }
    if outs_list.len() == 0 {
        return Err(Error::EmptyInputs);
    }
    let n = outs_list.len();
    let mut fetched: Vec<Option<Shape>> = Vec::new();
    let mut i: usize = 0;
    while i < n
        invariant
            n == outs_list@.len(),
            i <= n,
            fetched@.len() == i,
            forall|j: int|
                #![trigger fetched@[j]]
                0 <= j < i ==> fetch_result(entry.tensor_graph, outs_list@[j]) == Some(
                    crate::graph::oshape_view(fetched@[j]),
                ),
        decreases n - i,
    {
        let slot = match entry.fetch_shape(&outs_list[i]) {
            Ok(s) => s,
            Err(e) => {
                proof {
                    assert(outs_list@[i as int] == outs_list@[i as int]);
                    assert(fetched_dims(entry.tensor_graph, outs_list@[i as int]) is None);
                }
                return Err(e);
            },
        };
        fetched.push(slot);
        i = i + 1;
    }
    proof {
        assert forall|j: int| #![trigger outs_list@[j]] 0 <= j < n implies fetch_result(
            entry.tensor_graph,
            outs_list@[j],
        ) is Some by {
            assert(fetch_result(entry.tensor_graph, outs_list@[j]) == Some(
                crate::graph::oshape_view(fetched@[j]),
            ));
        }
    }
    // all inputs must be resolved; the first decides the rank
    let mut resolved: Vec<Shape> = Vec::new();
    let mut i: usize = 0;
    while i < n
        invariant
            n == fetched@.len(),
            i <= n,
            resolved@.len() == i,
            forall|j: int|
                #![trigger resolved@[j]]
                0 <= j < i ==> crate::graph::oshape_view(fetched@[j]) == Some(resolved@[j].0@),
        decreases n - i,
    {
        match &fetched[i] {
            Some(sh) => {
                resolved.push(sh.clone());
            },
            None => {
                proof {
                    assert(outs_list@[i as int] == outs_list@[i as int]);
                    assert(fetch_result(entry.tensor_graph, outs_list@[i as int]) == Some(
                        crate::graph::oshape_view(fetched@[i as int]),
                    ));
                    assert(fetched_dims(entry.tensor_graph, outs_list@[i as int]) is None);
                    assert forall|j: int|
                        0 <= j < i implies fetched_dims(
                        entry.tensor_graph,
                        #[trigger] outs_list@[j],
                    ) is Some by {
                        assert(crate::graph::oshape_view(fetched@[j]) == Some(resolved@[j].0@));
                        assert(fetch_result(entry.tensor_graph, outs_list@[j]) == Some(
                            crate::graph::oshape_view(fetched@[j]),
                        ));
                    }
                }
                if i == 0 {
                    return Err(Error::GenericShapes);
                }
                return Err(Error::GenericListInputShape { index: i });
            },
        }
        i = i + 1;
    }
    proof {
        assert forall|j: int|
            #![trigger outs_list@[j]]
            0 <= j < n implies fetched_dims(entry.tensor_graph, outs_list@[j]) == Some(
            resolved@[j].0@,
        ) by {
            assert(crate::graph::oshape_view(fetched@[j]) == Some(resolved@[j].0@));
            assert(fetch_result(entry.tensor_graph, outs_list@[j]) == Some(
                crate::graph::oshape_view(fetched@[j]),
            ));
        }
    }
    let rank = resolved[0].0.len();
    proof {
        let ds = concat_fetched(entry.tensor_graph, outs_list@);
        assert(outs_list@[0] == outs_list@[0]);
        assert(ds[0] == resolved@[0].0@);
    }
    let axis = match normalize_axis(axis_int, rank) {
        Ok(a) => a,
        Err(e) => {
            return Err(e);
        },
    };
    let out_shape = match concat_shapes(&resolved, axis) {
        Ok(s) => s,
        Err(e) => {
            proof {
                let ds = concat_fetched(entry.tensor_graph, outs_list@);
                assert forall|ii: int| #![trigger ds[ii]] 0 <= ii < ds.len() implies ds[ii]
                    == resolved@[ii].0@ by {
                    assert(outs_list@[ii] == outs_list@[ii]);
                }
                if concat_dims_ok(ds, axis as int) {
                    assert forall|ii: int|
                        #![trigger resolved@[ii]]
                        0 <= ii < resolved@.len() implies resolved@[ii].0@.len()
                        == resolved@[0].0@.len() && (forall|d: int|
                        #![trigger resolved@[ii].0@[d]]
                        0 <= d < resolved@[0].0@.len() && d != axis ==> dims_eq(
                            resolved@[ii].0@[d],
                            resolved@[0].0@[d],
                        )) by {
                        assert(ds[ii] == resolved@[ii].0@);
                        assert(ds[ii].len() == ds[0].len());
                        assert forall|d: int|
                            0 <= d < resolved@[0].0@.len() && d != axis implies dims_eq(
                            resolved@[ii].0@[d],
                            resolved@[0].0@[d],
                        ) by {
                            assert(dims_eq(ds[ii][d], ds[0][d]));
                        }
                    }
                    assert(concat_inputs_ok(resolved@, axis as int));
                    assert(false);
                }
            }
            return Err(e);
        },
    };
    proof {
        // the accepted normalized axis always fits a signed machine word
        if axis_int >= 0 {
            assert(axis as int == axis_int as int);
        } else {
            assert(rank >= 1);
            assert(axis as int == -(axis_int as int) - (rank as int));
            assert(-(axis_int as int) <= i64::MAX as int + 1);
        }
        assert(axis as int <= i64::MAX as int);
    }
    // the variable graph stores the resolved axis
    let axis_i64: i64 = axis as i64;
    proof {
        assert(axis_i64 as int == axis as int);
    }
    let graph = Graph::with_one_var(
        &mut root.seed,
        axis_key(),
        Some(Value::Int(axis_i64)),
    );
    // inputs are keyed by position, the output by the single port `x`
    let mut in_table: StrMap<Option<Shape>> = StrMap::new();
    let mut i: usize = 0;
    while i < n
        invariant
            n == fetched@.len(),
            i <= n,
            in_table.key_seq() =~= Seq::new(i as nat, |j: int| dec_str(j as nat)),
            forall|j: int|
                #![trigger in_table.spec_val_at(j)]
                0 <= j < i ==> crate::graph::oshape_view(in_table.spec_val_at(j))
                    == crate::graph::oshape_view(fetched@[j]),
        decreases n - i,
    {
        let key = position_key(i);
        proof {
            if in_table.contains_key(key@) {
                let j = choose|j: int|
                    0 <= j < in_table.spec_len() && in_table.spec_key_at(j) == key@;
                lemma_dec_str_eq(j as nat, i as nat);
            }
        }
        let slot = clone_slot(&fetched[i]);
        in_table.push_pair(key, slot);
        proof {
            assert(in_table.key_seq() =~= Seq::new((i + 1) as nat, |j: int| dec_str(j as nat)));
        }
        i = i + 1;
    }
    let mut out_table: StrMap<Option<Shape>> = StrMap::new();
    let x_key = x_port_name();
    out_table.insert(x_key, Some(out_shape));
    let outputs = Shapes(out_table);
    let ghost outv = outputs;
    proof {
        assert(outputs.0.spec_len() == 1);
        assert(outputs.spec_dims("x"@) == Some(Some(out_shape.0@)));
    }
    let ir = crate::tensor::ExternIR::new(
        call_name,
        graph,
        Some(Shapes(in_table)),
        Some(outputs),
    );
    let ghost irv = ir;
    proof {
        let g0 = entry.tensor_graph;
        let list = outs_list@;
        let d0 = fetched_dims(g0, list[0]).unwrap();
        assert(d0 == resolved@[0].0@);
        assert(d0.len() == rank);
        assert(axis as int == spec_norm_axis(axis_int as int, rank as int));
        // the positional input table answers per position
        assert forall|i: int|
            #![trigger irv.input.unwrap().dims_at(i)]
            0 <= i < list.len() implies irv.input.unwrap().0.spec_key_at(i) == dec_str(i as nat)
            && irv.input.unwrap().dims_at(i) == fetched_dims(g0, list[i]) by {
            assert(crate::graph::oshape_view(in_table.spec_val_at(i))
                == crate::graph::oshape_view(fetched@[i]));
        }
        // the output port keeps the first input off the axis and sums along it
        let d = out_shape.0@;
        let axis_seq = Seq::new(
            list.len(),
            |i: int|
                match fetched_dims(g0, list[i]) {
                    Some(di) => di[axis as int],
                    None => d0[axis as int],
                },
        );
        assert(axis_seq =~= axis_dims(resolved@, axis as int));
        assert(concat_leaf_ok(g0, entry.graph, node0, irv));
        let ds = concat_fetched(g0, list);
        assert forall|ii: int| #![trigger ds[ii]] 0 <= ii < ds.len() implies ds[ii]
            == resolved@[ii].0@ by {
            assert(list[ii] == list[ii]);
        }
        assert forall|ii: int|
            #![trigger ds[ii]]
            0 <= ii < ds.len() implies ds[ii].len() == ds[0].len() && (forall|d: int|
            #![trigger ds[ii][d]]
            0 <= d < ds[0].len() && d != axis ==> dims_eq(ds[ii][d], ds[0][d])) by {
            assert(resolved@[ii] == resolved@[ii]);
            assert(resolved@[ii].0@.len() == resolved@[0].0@.len());
            assert forall|d: int|
                0 <= d < ds[0].len() && d != axis implies dims_eq(ds[ii][d], ds[0][d]) by {
                assert(dims_eq(resolved@[ii].0@[d], resolved@[0].0@[d]));
            }
        }
        assert(concat_dims_ok(ds, axis as int));
        assert(concat_step_ok(node0, entry.graph, g0));
    }
    entry.tensor_graph.0.push(crate::tensor::TensorNode::Extern(ir));
    Ok(())
}

pub fn x_port_name() -> (s: String)
    ensures
        s@ == "x"@,
{
    "x".to_owned()
}

/// The generic composite-call path: for every call, in order, the named
/// template is taken from the cache, placed under this step's id, given
/// its resolved repeat and arguments, wired to its inputs, and — when
/// shape tracking is on — linked against the shapes feeding it; then it
/// is appended to the running graph. A declared output table is checked
/// against the graph's trailing output shapes at the end.
#[verifier::loop_isolation(false)]
fn build_default(
    node: GraphNode,
    entry: &mut NodeEntry,
    root: &mut crate::cache::NodeRoot,
) -> (r: Result<(), Error>)
    ensures
        final(entry).name == old(entry).name,
        final(entry).graph == old(entry).graph,
        final(entry).tensor_graph.0@.len() >= old(entry).tensor_graph.0@.len(),
        forall|i: int|
            #![trigger final(entry).tensor_graph.0@[i]]
            0 <= i < old(entry).tensor_graph.0@.len() ==> final(entry).tensor_graph.0@[i] == old(
                entry,
            ).tensor_graph.0@[i],
        r is Ok ==> final(entry).tensor_graph.0@.len() == old(entry).tensor_graph.0@.len()
            + node.calls@.len(),
        forall|i: int|
            #![trigger final(entry).tensor_graph.0@[i].node_data()]
            old(entry).tensor_graph.0@.len() <= i < final(entry).tensor_graph.0@.len()
                ==> final(entry).tensor_graph.0@[i].node_data().id == node.id,
        r is Ok ==> forall|i: int|
            #![trigger node.calls@[i]]
            0 <= i < node.calls@.len() ==> default_call_wired(
                old(root).cache.spec_built(),
                node.calls@[i],
                old(entry).tensor_graph.0@.len() + i > 0,
                final(entry).tensor_graph.0@[old(entry).tensor_graph.0@.len() + i],
            ),
{
    let ghost built0 = root.cache.spec_built();
    let GraphNode { id, calls, shapes } = node;
    let ghost calls0 = calls@;
    let total = calls.len();
    let mut rest = calls;
    let mut done: usize = 0;
    proof {
        assert(calls0.skip(0) =~= calls0);
    }
    while done < total
        invariant
            rest@.len() == total - done,
            rest@ =~= calls0.skip(done as int),
            done <= total,
            entry.name == old(entry).name,
            entry.graph == old(entry).graph,
            root.cache == old(root).cache,
            entry.tensor_graph.0@.len() == old(entry).tensor_graph.0@.len() + done,
            forall|i: int|
                #![trigger entry.tensor_graph.0@[i]]
                0 <= i < old(entry).tensor_graph.0@.len() ==> entry.tensor_graph.0@[i] == old(
                    entry,
                ).tensor_graph.0@[i],
            forall|i: int|
                #![trigger entry.tensor_graph.0@[i].node_data()]
                old(entry).tensor_graph.0@.len() <= i < entry.tensor_graph.0@.len()
                    ==> entry.tensor_graph.0@[i].node_data().id == id,
            forall|i: int|
                #![trigger calls0[i]]
                0 <= i < done ==> default_call_wired(
                    built0,
                    calls0[i],
                    old(entry).tensor_graph.0@.len() + i > 0,
                    entry.tensor_graph.0@[old(entry).tensor_graph.0@.len() + i],
                ),
        decreases total - done,
    {
        let call = rest.remove(0);
        proof {
            assert(call == calls0[done as int]);
        }
        match expand_one_call(call, id, entry, root) {
            Ok(_) => {},
            Err(e) => {
                return Err(e);
            },
        }
        proof {
            assert(rest@ =~= calls0.skip(done + 1));
        }
        done = done + 1;
    }
    // declared output shapes are linked against the trailing table, and
    // the merged result is written back so the graph observes it
    match shapes {
        Some(sh) => {
            let current: Option<Shapes> = match entry.tensor_graph.get_output_shapes() {
                Some(t) => Some(t.clone()),
                None => None,
            };
            match current {
                Some(cur) => {
                    let mut a = sh;
                    let mut b = cur;
                    match link_shapes(&mut a, &mut b) {
                        Ok(_) => {},
                        Err(e) => {
                            return Err(e);
                        },
                    }
                    if total > 0 {
                        let n = entry.tensor_graph.0.len();
                        let mut lastn = entry.tensor_graph.0.remove(n - 1);
                        let res = lastn.set_output_shapes_plain(b);
                        entry.tensor_graph.0.insert(n - 1, lastn);
                        match res {
                            Ok(_) => {},
                            Err(e) => {
                                return Err(e);
                            },
                        }
                    }
                },
                None => {},
            }
        },
        None => {},
    }
    Ok(())
}

/// The name a callee port's wiring entry is stored and named under: the
/// caller-given reference's own name when one is given, else the port
/// name itself (the same-named pass-through of the prior step).
pub open spec fn chosen_wire_name(given: Option<crate::graph::GraphInputs>, k: Seq<char>) -> Seq<
    char,
> {
    match given {
        Some(crate::graph::GraphInputs::Dict(d)) => match d.spec_get(k) {
            Some(x) => x.name@,
            None => k,
        },
        _ => k,
    }
}

/// What the composite path wires onto an appended callee, against the
/// cached template it came from: the callee keeps the template's name;
/// every wiring entry is keyed by its own port name; every declared input
/// port of the template has an entry under its chosen name; and when the
/// template declares no input shapes while shape tracking is on, every
/// entry is pinned to the reserved input id.
pub open spec fn default_call_wired(
    built: StrMap<crate::tensor::TensorNode>,
    call: GraphCall,
    tracking: bool,
    appended: crate::tensor::TensorNode,
) -> bool {
    match built.spec_get(call.name@) {
        Some(t) => {
            &&& appended.spec_name() == t.spec_name()
            &&& (appended.node_data().input matches Some(ins) && {
                &&& (forall|kk: Seq<char>|
                    #![trigger ins.spec_get(kk)]
                    ins.spec_get(kk) matches Some(x2) ==> x2.name@ == kk)
                &&& (match t.node_data().input {
                    Some(ti) => forall|j: int|
                        #![trigger ti.spec_key_at(j)]
                        0 <= j < ti.spec_len() ==> ins.contains_key(
                            chosen_wire_name(call.inputs, ti.spec_key_at(j)),
                        ),
                    None => true,
                })
                &&& ((tracking && crate::tensor::node_input_shapes(t) is None) ==> forall|
                    kk: Seq<char>,
                |
                    #![trigger ins.spec_get(kk)]
                    ins.spec_get(kk) matches Some(x2) ==> x2.id == Some(0u64))
            })
        },
        None => false,
    }
}

/// One call of the composite path; appends exactly one node on success.
#[verifier::loop_isolation(false)]
fn expand_one_call(
    call: GraphCall,
    id: u64,
    entry: &mut NodeEntry,
    root: &mut crate::cache::NodeRoot,
) -> (r: Result<(), Error>)
    ensures
        final(entry).name == old(entry).name,
        final(entry).graph == old(entry).graph,
        r is Ok ==> {
            &&& final(entry).tensor_graph.0@ == old(entry).tensor_graph.0@.push(
                final(entry).tensor_graph.0@.last(),
            )
            &&& final(entry).tensor_graph.0@.last().node_data().id == id
            &&& (final(entry).tensor_graph.0@.last().node_data().output matches Some(o) && (forall|
                k: Seq<char>,
            |
                #![trigger o.contains_key(k)]
                o.contains_key(k) ==> (o.spec_get(k) matches Some(x) && x.id == Some(id)
                    && x.name@ == k)))
            &&& default_call_wired(
                old(root).cache.spec_built(),
                call,
                old(entry).tensor_graph.0@.len() > 0,
                final(entry).tensor_graph.0@.last(),
            )
        },
        r is Err ==> *final(entry) == *old(entry),
        final(root).cache == old(root).cache,
{
    let ghost callv = call;
    let ghost built0 = root.cache.spec_built();
    let GraphCall { name: callee_name, inputs: call_inputs, args: call_args, repeat: call_repeat } =
        call;
    // step 1: the template
    let mut callee: crate::tensor::TensorNode = match root.get_built(&callee_name) {
        Some(n) => n,
        None => {
            return Err(Error::NoSuchNode { name: callee_name });
        },
    };
    proof {
        let t = built0.spec_get(callv.name@).unwrap();
        assert(crate::tensor::node_similar(callee, t));
        crate::tensor::lemma_similar_shapes(callee, t);
    }
    let ghost callee0 = callee;
    let ghost template = built0.spec_get(callv.name@).unwrap();
    proof {
        assert(crate::tensor::outs_similar(
            callee0.node_data().input,
            template.node_data().input,
        ));
    }
    callee.set_id(id);
    let rep = entry.graph.replace_to(call_repeat);
    match callee.set_repeat(rep) {
        Ok(_) => {},
        Err(e) => {
            return Err(e);
        },
    }
    // step 2: keyword arguments become bound variables on the callee
    match call_args {
        Some(kw) => {
            let resolved = resolve_args(&kw, &entry.graph);
            callee.apply_variables(resolved);
        },
        None => {},
    }
    // step 3: wire the inputs; a port the caller does not feed defaults
    // to the same-named port of the prior step
    let expected = callee.input_port_keys();
    proof {
        match template.node_data().input {
            Some(ti) => {
                assert(callee.node_data().input matches Some(o) && o.key_seq() == ti.key_seq());
                assert(expected@.len() == ti.spec_len());
                assert forall|j: int|
                    #![trigger ti.spec_key_at(j)]
                    0 <= j < ti.spec_len() implies expected@[j]@ == ti.spec_key_at(j) by {
                    assert(callee.node_data().input.unwrap().spec_key_at(j) == ti.spec_key_at(j));
                }
            },
            None => {},
        }
    }
    let given: Outs = match call_inputs {
        Some(inp) => match unwrap_dict(inp) {
            Ok(o) => o,
            Err(e) => {
                return Err(e);
            },
        },
        None => StrMap::new(),
    };
    let mut new_inputs: Outs = StrMap::new();
    let nkeys = expected.len();
    let mut i: usize = 0;
    while i < nkeys
        invariant
            nkeys == expected@.len(),
            i <= nkeys,
            forall|kk: Seq<char>|
                #![trigger new_inputs.spec_get(kk)]
                new_inputs.spec_get(kk) matches Some(x2) ==> x2.name@ == kk,
            forall|j: int|
                #![trigger expected@[j]]
                0 <= j < i ==> new_inputs.contains_key(
                    chosen_wire_name(callv.inputs, expected@[j]@),
                ),
        decreases nkeys - i,
    {
        let k = &expected[i];
        let x: crate::value::Out = match given.get(k) {
            Some(o) => o.clone(),
            None => crate::value::Out::with_name(k.clone()),
        };
        proof {
            assert(x.name@ == chosen_wire_name(callv.inputs, expected@[i as int]@));
        }
        let key = x.name.clone();
        let ghost xv = x;
        new_inputs.insert(key, x);
        proof {
            assert(new_inputs.spec_get(xv.name@) == Some(xv));
            assert forall|kk: Seq<char>|
                #![trigger new_inputs.spec_get(kk)]
                (match new_inputs.spec_get(kk) {
                    Some(x2) => x2.name@ == kk,
                    None => true,
                }) by {}
        }
        i = i + 1;
    }
    let wiring = new_inputs.clone();
    proof {
        use_type_invariant(&new_inputs);
        use_type_invariant(&wiring);
        assert forall|ii: int| 0 <= ii < new_inputs.spec_len() implies new_inputs.spec_val_at(ii)
            == wiring.spec_val_at(ii) by {
            crate::value::lemma_cloned_out(new_inputs.spec_val_at(ii), wiring.spec_val_at(ii));
        }
        new_inputs.lemma_equal_views(&wiring);
    }
    let ghost insv = new_inputs;
    let ghost mut final_ins = new_inputs;
    let ghost mut dynamic_path = false;
    let ghost mut tmpl_in_some = false;
    callee.set_input_outs(Some(new_inputs));
    let mut new_outputs: Outs = StrMap::new();
    let mut i: usize = 0;
    while i < nkeys
        invariant
            nkeys == expected@.len(),
            i <= nkeys,
            forall|k: Seq<char>|
                #![trigger new_outputs.contains_key(k)]
                new_outputs.contains_key(k) ==> (new_outputs.spec_get(k) matches Some(x) && x.id
                    == Some(id) && x.name@ == k),
        decreases nkeys - i,
    {
        let k = expected[i].clone();
        let ghost kv = k@;
        let o = crate::value::Out::new(id, k.clone());
        let ghost ov = o;
        new_outputs.insert(k, o);
        proof {
            assert(new_outputs.spec_get(kv) == Some(ov));
            assert forall|k2: Seq<char>|
                #![trigger new_outputs.contains_key(k2)]
                new_outputs.contains_key(k2) implies (new_outputs.spec_get(k2) matches Some(x)
                && x.id == Some(id) && x.name@ == k2) by {
                if k2 != kv {
                }
            }
        }
        i = i + 1;
    }
    callee.set_output_outs(Some(new_outputs));
    // step 4: merge shapes along the new wiring
    if entry.tensor_graph.0.len() > 0 {
        let mut fetched: StrMap<Option<Shape>> = StrMap::new();
        let m = wiring.len();
        let mut i: usize = 0;
        while i < m
            invariant
                m == wiring.spec_len(),
                i <= m,
            decreases m - i,
        {
            let key = wiring.key_at(i).clone();
            let x = wiring.val_at(i);
            let slot = match entry.fetch_shape(x) {
                Ok(s) => s,
                Err(e) => {
                    return Err(e);
                },
            };
            fetched.insert(key, slot);
            i = i + 1;
        }
        let declared: Option<Shapes> = match callee.get_input_shapes() {
            Some(s) => Some(s.clone()),
            None => None,
        };
        match declared {
            Some(decl) => {
                proof {
                    assert(crate::tensor::node_input_shapes(template) is Some);
                    tmpl_in_some = true;
                }
                let mut a = Shapes(fetched);
                let mut b = decl;
                match link_shapes(&mut a, &mut b) {
                    Ok(_) => {},
                    Err(e) => {
                        return Err(e);
                    },
                }
                let merged = b.clone();
                match callee.set_input_shapes(b) {
                    Ok(_) => {},
                    Err(e) => {
                        return Err(e);
                    },
                }
                // identity pass-through: an unset declared output takes
                // the resolved input shape of the same-named port
                let out_decl: Option<Shapes> = match callee.get_output_shapes() {
                    Some(s) => Some(s.clone()),
                    None => None,
                };
                match out_decl {
                    Some(outs) => {
                        let filled = fill_unset_ports(outs, &merged);
                        match callee.set_output_shapes_plain(filled) {
                            Ok(_) => {},
                            Err(e) => {
                                return Err(e);
                            },
                        }
                    },
                    None => {},
                }
            },
            None => {
                // fully dynamic: every wired input belongs to the
                // reserved graph-input id
                proof {
                    assert(crate::tensor::node_input_shapes(template) is None);
                }
                let marked = mark_zero(&wiring);
                proof {
                    dynamic_path = true;
                    final_ins = marked;
                }
                callee.set_input_outs(Some(marked));
            },
        }
    }
    let ghost tracking = old(entry).tensor_graph.0@.len() > 0;
    proof {
        assert(tracking ==> dynamic_path || tmpl_in_some);
        assert(callee.node_data().input == Some(final_ins));
        // every entry is keyed by its own port name
        assert forall|kk: Seq<char>|
            #![trigger final_ins.spec_get(kk)]
            (match final_ins.spec_get(kk) {
                Some(x2) => x2.name@ == kk,
                None => true,
            }) by {
            if dynamic_path {
            }
        }
        // every declared input port of the template has its chosen entry
        match template.node_data().input {
            Some(ti) => {
                assert forall|j: int|
                    #![trigger ti.spec_key_at(j)]
                    0 <= j < ti.spec_len() implies final_ins.contains_key(
                    chosen_wire_name(callv.inputs, ti.spec_key_at(j)),
                ) by {
                    assert(expected@[j] == expected@[j]);
                    assert(expected@[j]@ == ti.spec_key_at(j));
                    assert(insv.contains_key(chosen_wire_name(callv.inputs, expected@[j]@)));
                    if dynamic_path {
                        let cn = chosen_wire_name(callv.inputs, ti.spec_key_at(j));
                        let idx = insv.index_of(cn);
                        assert(0 <= idx < insv.spec_len() && insv.spec_key_at(idx) == cn);
                        assert(final_ins.spec_key_at(idx) == cn);
                    }
                }
            },
            None => {},
        }
        // the fully-dynamic rule pins every entry to the reserved id
        if tracking && crate::tensor::node_input_shapes(template) is None {
            assert(dynamic_path);
        }
        assert(default_call_wired(built0, callv, tracking, callee));
    }
    // step 5: append
    entry.tensor_graph.0.push(callee);
    Ok(())
}

/// Keyed wiring or a refusal naming the structure that was given instead.
fn unwrap_dict(inputs: crate::graph::GraphInputs) -> (r: Result<Outs, Error>)
    ensures
        match r {
            Ok(o) => inputs matches crate::graph::GraphInputs::Dict(d) && o == d,
            Err(e) => !(inputs matches crate::graph::GraphInputs::Dict(_)) && e
                matches Error::MismatchedInputsType { .. },
        },
{
    let ty = inputs.ty();
    match inputs.unwrap_dict() {
        Some(o) => Ok(o),
        None => Err(Error::MismatchedInputsType { expected: GraphInputsType::Dict, given: ty }),
    }
}

/// Resolves keyword arguments against a scope, each becoming a variable
/// named after its key and bound to the resolved value.
#[verifier::loop_isolation(false)]
fn resolve_args(kw: &Keywords, scope: &Graph) -> (r: StrMap<crate::vars::Variable>)
    ensures
        r.key_seq() == kw.key_seq(),
        forall|k: Seq<char>|
            #![trigger r.spec_get(k)]
            r.contains_key(k) ==> (r.spec_get(k) matches Some(var) && var.name@ == k && var.ty
                is None && (var.value matches Some(v) && v == crate::vars::spec_subst(
                scope.variables,
                kw.spec_get(k).unwrap(),
            ))),
{
    proof {
        use_type_invariant(kw);
        kw.lemma_keys_unique();
    }
    let n = kw.len();
    let mut r: StrMap<crate::vars::Variable> = StrMap::new();
    let mut i: usize = 0;
    while i < n
        invariant
            n == kw.spec_len(),
            i <= n,
            r.key_seq() =~= kw.key_seq().take(i as int),
            forall|j: int|
                #![trigger kw.spec_key_at(j)]
                0 <= j < i ==> (r.spec_get(kw.spec_key_at(j)) matches Some(var) && var.name@
                    == kw.spec_key_at(j) && var.ty is None && (var.value matches Some(v) && v
                    == crate::vars::spec_subst(
                    scope.variables,
                    kw.spec_get(kw.spec_key_at(j)).unwrap(),
                ))),
        decreases n - i,
    {
        let k = kw.key_at(i).clone();
        let ghost kv = k@;
        proof {
            use_type_invariant(kw);
            kw.lemma_at_get(i as int);
            assert(r.spec_len() == i);
            if r.contains_key(kv) {
                let j = choose|j: int| 0 <= j < r.spec_len() && r.spec_key_at(j) == kv;
                assert(kw.spec_key_at(j) == kw.spec_key_at(i as int));
            }
        }
        let v0 = kw.val_at(i).clone();
        let resolved = match scope.replace_to(Some(v0)) {
            Some(v) => v,
            None => vstd::pervasive::unreached(),
        };
        let var = crate::vars::Variable::with_name_value(k.clone(), Some(resolved));
        let ghost varv = var;
        r.push_pair(k, var);
        proof {
            assert(r.key_seq() =~= kw.key_seq().take(i + 1));
            assert(r.spec_get(kv) == Some(varv));
            assert forall|j: int|
                #![trigger kw.spec_key_at(j)]
                0 <= j < i + 1 implies (r.spec_get(kw.spec_key_at(j)) matches Some(var2)
                && var2.name@ == kw.spec_key_at(j) && var2.ty is None && (var2.value matches Some(
                v,
            ) && v == crate::vars::spec_subst(
                scope.variables,
                kw.spec_get(kw.spec_key_at(j)).unwrap(),
            ))) by {
                if j < i {
                    assert(kw.spec_key_at(j) != kv);
                }
            }
        }
        i = i + 1;
    }
    proof {
        assert(r.key_seq() =~= kw.key_seq());
        assert forall|k: Seq<char>|
            r.contains_key(k) implies (r.spec_get(k) matches Some(var) && var.name@ == k
            && var.ty is None && (var.value matches Some(v) && v == crate::vars::spec_subst(
            scope.variables,
            kw.spec_get(k).unwrap(),
        ))) by {
            let j = choose|j: int| 0 <= j < r.spec_len() && r.spec_key_at(j) == k;
            assert(kw.spec_key_at(j) == k);
        }
    }
    r
}

/// Fills every unset port of `outs` with the resolved shape `src` has for
/// the same port, when it has one.
fn fill_unset_ports(outs: Shapes, src: &Shapes) -> (r: Shapes)
    ensures
        r.0.key_seq() == outs.0.key_seq(),
{
    let n = outs.0.len();
    let mut t = outs;
    let mut i: usize = 0;
    #[verifier::loop_isolation(false)]
    while i < n
        invariant
            n == t.0.spec_len(),
            i <= n,
            t.0.key_seq() == outs.0.key_seq(),
        decreases n - i,
    {
        let is_unset = match t.0.val_at(i) {
            Some(_) => false,
            None => true,
        };
        if is_unset {
            let key = t.0.key_at(i).clone();
            match src.0.get(&key) {
                Some(slot) => match slot {
                    Some(sh) => {
                        let c = sh.clone();
                        t.0.set_val_at(i, Some(c));
                    },
                    None => {},
                },
                None => {},
            }
        }
        i = i + 1;
    }
    t
}

/// Marks every wiring entry as belonging to the reserved input id.
fn mark_zero(wiring: &Outs) -> (r: Outs)
    ensures
        r.key_seq() == wiring.key_seq(),
        forall|k: Seq<char>|
            #![trigger r.spec_get(k)]
            r.spec_get(k) matches Some(x2) ==> x2.id == Some(0u64) && (wiring.spec_get(k)
                matches Some(x) && x2.name@ == x.name@),
{
    proof {
        use_type_invariant(wiring);
        wiring.lemma_keys_unique();
    }
    let n = wiring.len();
    let mut r: Outs = StrMap::new();
    let mut i: usize = 0;
    #[verifier::loop_isolation(false)]
    while i < n
        invariant
            n == wiring.spec_len(),
            i <= n,
            r.key_seq() =~= wiring.key_seq().take(i as int),
            forall|k2: Seq<char>|
                #![trigger r.spec_get(k2)]
                r.spec_get(k2) matches Some(x2) ==> x2.id == Some(0u64) && (wiring.spec_get(k2)
                    matches Some(x0) && x2.name@ == x0.name@),
        decreases n - i,
    {
        let k = wiring.key_at(i).clone();
        let ghost kv = k@;
        proof {
            assert(r.spec_len() == i);
            if r.contains_key(kv) {
                let j = choose|j: int| 0 <= j < r.spec_len() && r.spec_key_at(j) == kv;
                assert(wiring.spec_key_at(j) == wiring.spec_key_at(i as int));
            }
        }
        let x = wiring.val_at(i);
        let o = crate::value::Out { id: Some(0), name: x.name.clone() };
        let ghost ov = o;
        r.push_pair(k, o);
        proof {
            assert(r.key_seq() =~= wiring.key_seq().take(i + 1));
            assert(r.spec_get(kv) == Some(ov));
            assert forall|k2: Seq<char>|
                #![trigger r.spec_get(k2)]
                (match r.spec_get(k2) {
                    Some(x2) => x2.id == Some(0u64) && (wiring.spec_get(k2) matches Some(x0)
                        && x2.name@ == x0.name@),
                    None => true,
                }) by {
                if k2 == kv {
                    wiring.lemma_at_get(i as int);
                }
            }
        }
        i = i + 1;
    }
    proof {
        assert(r.key_seq() =~= wiring.key_seq());
    }
    r
}

} // verus!
