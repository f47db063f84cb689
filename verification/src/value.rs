//! Dimension values: literals, node references, output-dimension references,
//! named variables and binary expressions, with constant folding and the
//! structural equality that shape unification relies on.

use vstd::prelude::*;

verus! {

/// A reference to an output port of a placed node. An id of `None` means
/// "not yet placed"; id `0` is reserved for the implicit graph input node.
#[derive(Debug, PartialEq)]
pub struct Out {
    pub id: Option<u64>,
    pub name: String,
}

impl Out {
    pub fn with_name(name: String) -> (r: Self)
        ensures
            r.id is None,
            r.name == name,
    {
        Out { id: None, name }
    }

    pub fn new(id: u64, name: String) -> (r: Self)
        ensures
            r.id == Some(id),
            r.name == name,
    {
        Out { id: Some(id), name }
    }
}

impl Clone for Out {
    fn clone(&self) -> (r: Self)
        ensures
            r == *self,
    {
        Out { id: self.id, name: self.name.clone() }
    }
}

/// One dimension of some output port: the port plus a dimension index.
#[derive(Debug, PartialEq)]
pub struct OutDim {
    pub out: Out,
    pub dim: usize,
}

impl Clone for OutDim {
    fn clone(&self) -> (r: Self)
        ensures
            r == *self,
    {
        OutDim { out: self.out.clone(), dim: self.dim }
    }
}

#[derive(Clone, Copy, Debug, PartialEq, Eq, Structural)]
pub enum BinOp {
    Add,
    Sub,
    Mul,
}

#[derive(Debug, PartialEq)]
pub struct Expr {
    pub op: BinOp,
    pub lhs: Value,
    pub rhs: Value,
}

/// A dimension or argument value. A value may stay symbolic (a variable,
/// an unplaced output dimension, an unreduced expression) until enough is
/// known to fold it to a number.
#[derive(Debug, PartialEq)]
pub enum Value {
    Bool(bool),
    UInt(u64),
    Int(i64),
    Node(String),
    Dim(OutDim),
    Variable(String),
    Expr(Box<Expr>),
}

impl Clone for Value {
    fn clone(&self) -> (r: Self)
        ensures
            r == *self,
        decreases self,
    {
        match self {
            Value::Bool(b) => Value::Bool(*b),
            Value::UInt(n) => Value::UInt(*n),
            Value::Int(i) => Value::Int(*i),
            Value::Node(s) => Value::Node(s.clone()),
            Value::Dim(d) => Value::Dim(d.clone()),
            Value::Variable(s) => Value::Variable(s.clone()),
            Value::Expr(e) => Value::Expr(
                Box::new(Expr { op: e.op, lhs: e.lhs.clone(), rhs: e.rhs.clone() }),
            ),
        }
    }
}

/// A cloned port reference equals its source.
pub proof fn lemma_cloned_out(a: Out, b: Out)
    requires
        vstd::pervasive::cloned::<Out>(a, b),
    ensures
        a == b,
{
    if a != b {
        assert(call_ensures(<Out as Clone>::clone, (&a,), b));
    }
}

/// The broad kind of a value, reported when an argument has the wrong type.
#[derive(Clone, Copy, Debug, PartialEq, Eq, Structural)]
pub enum LetType {
    Bool,
    UInt,
    Int,
    Node(Option<LetNodeType>),
    Dim,
    Variable,
    Expr,
}

#[derive(Clone, Copy, Debug, PartialEq, Eq, Structural)]
pub enum LetNodeType {
    Default,
    Extern(ExternNodeType),
}

#[derive(Clone, Copy, Debug, PartialEq, Eq, Structural)]
pub enum ExternNodeType {
    Default,
    Data,
    Optim,
}

impl Value {
    pub open spec fn spec_ty(&self) -> LetType {
        match self {
            Value::Bool(_) => LetType::Bool,
            Value::UInt(_) => LetType::UInt,
            Value::Int(_) => LetType::Int,
            Value::Node(_) => LetType::Node(None),
            Value::Dim(_) => LetType::Dim,
            Value::Variable(_) => LetType::Variable,
            Value::Expr(_) => LetType::Expr,
        }
    }

    pub fn ty(&self) -> (r: LetType)
        ensures
            r == self.spec_ty(),
    {
        match self {
            Value::Bool(_) => LetType::Bool,
            Value::UInt(_) => LetType::UInt,
            Value::Int(_) => LetType::Int,
            Value::Node(_) => LetType::Node(None),
            Value::Dim(_) => LetType::Dim,
            Value::Variable(_) => LetType::Variable,
            Value::Expr(_) => LetType::Expr,
        }
    }

    /// The integer behind a numeric value, when it fits a signed machine word.
    pub open spec fn spec_unwrap_int(&self) -> Option<i64> {
        match self {
            Value::Int(i) => Some(*i),
            Value::UInt(n) => if *n <= i64::MAX as u64 {
                Some(*n as i64)
            } else {
                None
            },
            _ => None,
        }
    }

    pub fn unwrap_int(&self) -> (r: Option<i64>)
        ensures
            r == self.spec_unwrap_int(),
    {
        match self {
            Value::Int(i) => Some(*i),
            Value::UInt(n) => {
                if *n <= i64::MAX as u64 {
                    Some(*n as i64)
                } else {
                    None
                }
            },
            _ => None,
        }
    }

    /// The node name behind a node-reference value.
    pub open spec fn spec_unwrap_node_name(&self) -> Option<Seq<char>> {
        match self {
            Value::Node(s) => Some(s@),
            _ => None,
        }
    }

    pub fn unwrap_node_name<'a>(&'a self) -> (r: Option<&'a String>)
        ensures
            match r {
                Some(s) => self.spec_unwrap_node_name() == Some(s@),
                None => self.spec_unwrap_node_name() is None,
            },
    {
        match self {
            Value::Node(s) => Some(s),
            _ => None,
        }
    }
}

/// The number a value stands for, when it is a literal or an expression
/// over literals. Variables and unplaced dimensions have no number yet.
pub open spec fn spec_eval(v: Value) -> Option<int>
    decreases v,
{
    match v {
        Value::UInt(n) => Some(n as int),
        Value::Int(i) => Some(i as int),
        Value::Expr(e) => match (spec_eval(e.lhs), spec_eval(e.rhs)) {
            (Some(a), Some(b)) => Some(
                match e.op {
                    BinOp::Add => a + b,
                    BinOp::Sub => a - b,
                    BinOp::Mul => a * b,
                },
            ),
            _ => None,
        },
        _ => None,
    }
}

/// Structural equality of values, with names compared by their characters.
pub open spec fn veq(a: Value, b: Value) -> bool
    decreases a,
{
    match (a, b) {
        (Value::Bool(x), Value::Bool(y)) => x == y,
        (Value::UInt(x), Value::UInt(y)) => x == y,
        (Value::Int(x), Value::Int(y)) => x == y,
        (Value::UInt(x), Value::Int(y)) => x as int == y as int,
        (Value::Int(x), Value::UInt(y)) => x as int == y as int,
        (Value::Node(x), Value::Node(y)) => x@ == y@,
        (Value::Dim(x), Value::Dim(y)) => x.out.id == y.out.id && x.out.name@ == y.out.name@
            && x.dim == y.dim,
        (Value::Variable(x), Value::Variable(y)) => x@ == y@,
        (Value::Expr(x), Value::Expr(y)) => x.op == y.op && veq(x.lhs, y.lhs) && veq(x.rhs, y.rhs),
        _ => false,
    }
}

pub proof fn lemma_veq_refl(a: Value)
    ensures
        veq(a, a),
    decreases a,
{
    match a {
        Value::Expr(e) => {
            lemma_veq_refl(e.lhs);
            lemma_veq_refl(e.rhs);
        },
        _ => {},
    }
}

pub proof fn lemma_veq_sym(a: Value, b: Value)
    requires
        veq(a, b),
    ensures
        veq(b, a),
    decreases a,
{
    match (a, b) {
        (Value::Expr(x), Value::Expr(y)) => {
            lemma_veq_sym(x.lhs, y.lhs);
            lemma_veq_sym(x.rhs, y.rhs);
        },
        _ => {},
    }
}

/// Equal values stand for the same number.
pub proof fn lemma_veq_eval(a: Value, b: Value)
    requires
        veq(a, b),
    ensures
        spec_eval(a) == spec_eval(b),
    decreases a,
{
    match (a, b) {
        (Value::Expr(x), Value::Expr(y)) => {
            lemma_veq_eval(x.lhs, y.lhs);
            lemma_veq_eval(x.rhs, y.rhs);
        },
        _ => {},
    }
}

/// Law: dimensions that unify stand for the same number — unification
/// never identifies two sizes that differ.
pub proof fn lemma_dims_eq_eval(a: Value, b: Value)
    requires
        dims_eq(a, b),
    ensures
        spec_eval(a) == spec_eval(b),
{
    lemma_reduce_eval(a);
    lemma_reduce_eval(b);
    lemma_veq_eval(spec_reduce(a), spec_reduce(b));
}

/// Constant folding: an expression over two numbers becomes the number when
/// it fits a machine word, and is kept symbolic otherwise. Anything that is
/// not an expression is left alone.
pub open spec fn spec_reduce(v: Value) -> Value
    decreases v,
{
    match v {
        Value::Expr(e) => {
            let l = spec_reduce(e.lhs);
            let r = spec_reduce(e.rhs);
            match (spec_num(l), spec_num(r)) {
                (Some(a), Some(b)) => {
                    let k = match e.op {
                        BinOp::Add => a + b,
                        BinOp::Sub => a - b,
                        BinOp::Mul => a * b,
                    };
                    if 0 <= k <= u64::MAX as int {
                        Value::UInt(k as u64)
                    } else if i64::MIN as int <= k < 0 {
                        Value::Int(k as i64)
                    } else {
                        Value::Expr(Box::new(Expr { op: e.op, lhs: l, rhs: r }))
                    }
                },
                _ => Value::Expr(Box::new(Expr { op: e.op, lhs: l, rhs: r })),
            }
        },
        _ => v,
    }
}

/// The number a literal holds; `None` for anything that is not a literal.
pub open spec fn spec_num(v: Value) -> Option<int> {
    match v {
        Value::UInt(n) => Some(n as int),
        Value::Int(i) => Some(i as int),
        _ => None,
    }
}

/// Folding keeps the number a value stands for.
pub proof fn lemma_reduce_eval(v: Value)
    ensures
        spec_eval(spec_reduce(v)) == spec_eval(v),
    decreases v,
{
    match v {
        Value::Expr(e) => {
            lemma_reduce_eval(e.lhs);
            lemma_reduce_eval(e.rhs);
        },
        _ => {},
    }
}

/// Two values unify as dimensions when they fold to the same thing.
pub open spec fn dims_eq(a: Value, b: Value) -> bool {
    veq(spec_reduce(a), spec_reduce(b))
}

fn num_of(v: &Value) -> (r: Option<i128>)
    ensures
        match r {
            Some(k) => spec_num(*v) == Some(k as int),
            None => spec_num(*v) is None,
        },
{
    match v {
        Value::UInt(n) => Some(*n as i128),
        Value::Int(i) => Some(*i as i128),
        _ => None,
    }
}

/// Folds constants inside a value; see `spec_reduce`.
pub fn reduce(v: Value) -> (r: Value)
    ensures
        r == spec_reduce(v),
    decreases v,
{
    match v {
        Value::Expr(e) => {
            let ghost v0 = v;
            let ex = *e;
            let Expr { op, lhs, rhs } = ex;
            let l = reduce(lhs);
            let r = reduce(rhs);
            let ln = num_of(&l);
            let rn = num_of(&r);
            match (ln, rn) {
                (Some(a), Some(b)) => {
                    let k: Option<i128> = match op {
                        BinOp::Add => Some(a + b),
                        BinOp::Sub => Some(a - b),
                        BinOp::Mul => a.checked_mul(b),
                    };
                    match k {
                        Some(k) => {
                            if 0 <= k && k <= u64::MAX as i128 {
                                Value::UInt(k as u64)
                            } else if i64::MIN as i128 <= k && k < 0 {
                                Value::Int(k as i64)
                            } else {
                                Value::Expr(Box::new(Expr { op, lhs: l, rhs: r }))
                            }
                        },
                        None => Value::Expr(Box::new(Expr { op, lhs: l, rhs: r })),
                    }
                },
                _ => Value::Expr(Box::new(Expr { op, lhs: l, rhs: r })),
            }
        },
        _ => v,
    }
}

/// Structural equality of values; see `veq`.
pub fn value_eq(a: &Value, b: &Value) -> (r: bool)
    ensures
        r == veq(*a, *b),
    decreases a,
{
    match (a, b) {
        (Value::Bool(x), Value::Bool(y)) => *x == *y,
        (Value::UInt(x), Value::UInt(y)) => *x == *y,
        (Value::Int(x), Value::Int(y)) => *x == *y,
        (Value::UInt(x), Value::Int(y)) => *y >= 0 && *x <= i64::MAX as u64 && *x as i64 == *y,
        (Value::Int(x), Value::UInt(y)) => *x >= 0 && *y <= i64::MAX as u64 && *x == *y as i64,
        (Value::Node(x), Value::Node(y)) => *x == *y,
        (Value::Dim(x), Value::Dim(y)) => {
            let id_eq = match (x.out.id, y.out.id) {
                (Some(i), Some(j)) => i == j,
                (None, None) => true,
                _ => false,
            };
            id_eq && x.out.name == y.out.name && x.dim == y.dim
        },
        (Value::Variable(x), Value::Variable(y)) => *x == *y,
        (Value::Expr(x), Value::Expr(y)) => x.op == y.op && value_eq(&x.lhs, &y.lhs) && value_eq(
            &x.rhs,
            &y.rhs,
        ),
        _ => false,
    }
}

/// Whether two values fold to the same thing; the unification test on
/// single dimensions.
pub fn values_unify(a: &Value, b: &Value) -> (r: bool)
    ensures
        r == dims_eq(*a, *b),
{
    let ra = reduce(a.clone());
    let rb = reduce(b.clone());
    value_eq(&ra, &rb)
}

pub open spec fn op_apply(op: BinOp, a: int, b: int) -> int {
    match op {
        BinOp::Add => a + b,
        BinOp::Sub => a - b,
        BinOp::Mul => a * b,
    }
}

pub open spec fn op_identity(op: BinOp) -> int {
    match op {
        BinOp::Mul => 1,
        _ => 0,
    }
}

/// Folding a sequence of values under one operator, reducing as it goes;
/// this is what `Shape::sum` and `Shape::product` compute.
pub open spec fn spec_fold_op(s: Seq<Value>, op: BinOp) -> Value
    decreases s.len(),
{
    if s.len() == 0 {
        Value::UInt(op_identity(op) as u64)
    } else if s.len() == 1 {
        spec_reduce(s[0])
    } else {
        spec_reduce(
            Value::Expr(Box::new(Expr { op, lhs: spec_fold_op(s.drop_last(), op), rhs: s.last() })),
        )
    }
}

/// Every element stands for a number.
pub open spec fn all_numeric(s: Seq<Value>) -> bool {
    forall|i: int| 0 <= i < s.len() ==> spec_eval(s[i]) is Some
}

/// The numbers behind a sequence of values; zero where a value is symbolic.
pub open spec fn eval_seq(s: Seq<Value>) -> Seq<int> {
    s.map_values(
        |v: Value|
            match spec_eval(v) {
                Some(k) => k,
                None => 0,
            },
    )
}

pub open spec fn fold_ints(s: Seq<int>, op: BinOp) -> int
    decreases s.len(),
{
    if s.len() == 0 {
        op_identity(op)
    } else {
        op_apply(op, fold_ints(s.drop_last(), op), s.last())
    }
}

pub open spec fn sum_ints(s: Seq<int>) -> int {
    fold_ints(s, BinOp::Add)
}

pub open spec fn prod_ints(s: Seq<int>) -> int {
    fold_ints(s, BinOp::Mul)
}

/// Folding values computes the fold of the numbers they stand for.
#[verifier::rlimit(50)]
pub proof fn lemma_fold_op_eval(s: Seq<Value>, op: BinOp)
    requires
        all_numeric(s),
        op != BinOp::Sub,
    ensures
        spec_eval(spec_fold_op(s, op)) == Some(fold_ints(eval_seq(s), op)),
    decreases s.len(),
{
    broadcast use vstd::arithmetic::mul::group_mul_properties;

    let ev = eval_seq(s);
    if s.len() == 0 {
        assert(ev.len() == 0);
        assert(spec_fold_op(s, op) == Value::UInt(op_identity(op) as u64));
        assert(fold_ints(ev, op) == op_identity(op));
        assert(spec_eval(spec_fold_op(s, op)) == Some(fold_ints(ev, op)));
    } else if s.len() == 1 {
        assert(spec_fold_op(s, op) == spec_reduce(s[0]));
        assert(spec_eval(s[0]) is Some);
        lemma_reduce_eval(s[0]);
        assert(ev.len() == 1);
        assert(ev.drop_last().len() == 0);
        assert(ev.last() == match spec_eval(s[0]) {
            Some(k) => k,
            None => 0,
        });
        assert(fold_ints(ev.drop_last(), op) == op_identity(op));
        assert(fold_ints(ev, op) == op_apply(op, op_identity(op), ev.last()));
        assert(spec_eval(spec_fold_op(s, op)) == Some(fold_ints(ev, op)));
    } else {
        lemma_fold_op_eval(s.drop_last(), op);
        let e = Value::Expr(
            Box::new(Expr { op, lhs: spec_fold_op(s.drop_last(), op), rhs: s.last() }),
        );
        lemma_reduce_eval(e);
        assert(spec_fold_op(s, op) == spec_reduce(e));
        assert(fold_ints(ev, op) == op_apply(op, fold_ints(ev.drop_last(), op), ev.last()));
        assert(spec_eval(s[s.len() - 1]) is Some);
        assert(ev.drop_last() =~= eval_seq(s.drop_last()));
        assert(ev.last() == match spec_eval(s[s.len() - 1]) {
            Some(k) => k,
            None => 0,
        });
        assert(spec_eval(e) == Some(op_apply(op, fold_ints(ev.drop_last(), op), ev.last())));
    }
    assert(spec_eval(spec_fold_op(s, op)) == Some(fold_ints(ev, op)));
}

/// Taking one element out and folding it back in changes nothing, for a
/// commutative and associative operator.
proof fn lemma_fold_ints_remove(s: Seq<int>, op: BinOp, i: int)
    requires
        op != BinOp::Sub,
        0 <= i < s.len(),
    ensures
        fold_ints(s, op) == op_apply(op, fold_ints(s.remove(i), op), s[i]),
    decreases s.len(),
{
    broadcast use vstd::arithmetic::mul::lemma_mul_is_associative, vstd::arithmetic::mul::lemma_mul_is_commutative;

    if i == s.len() - 1 {
        assert(s.remove(i) =~= s.drop_last());
    } else {
        let t = s.drop_last();
        lemma_fold_ints_remove(t, op, i);
        assert(s.remove(i).drop_last() =~= t.remove(i));
        assert(s.remove(i).last() == s.last());
    }
}

/// Folding under a commutative and associative operator does not depend on
/// the order of the elements.
pub proof fn lemma_fold_ints_permutation(a: Seq<int>, b: Seq<int>, op: BinOp)
    requires
        op != BinOp::Sub,
        a.to_multiset() == b.to_multiset(),
    ensures
        fold_ints(a, op) == fold_ints(b, op),
    decreases a.len(),
{
    broadcast use vstd::seq_lib::group_to_multiset_ensures;

    a.to_multiset_ensures();
    b.to_multiset_ensures();
    if a.len() == 0 {
        assert(b.to_multiset().len() == 0);
    } else {
        let x = a.last();
        assert(a.drop_last().push(x) =~= a);
        assert(a.to_multiset().count(x) > 0);
        assert(b.to_multiset().count(x) > 0);
        assert(b.contains(x));
        let j = choose|j: int| 0 <= j < b.len() && b[j] == x;
        lemma_fold_ints_remove(b, op, j);
        assert(a.drop_last().to_multiset() =~= a.to_multiset().remove(x));
        assert(b.remove(j).to_multiset() =~= b.to_multiset().remove(x));
        lemma_fold_ints_permutation(a.drop_last(), b.remove(j), op);
    }
}

/// Builds the running fold of a dimension list under one operator.
pub fn fold_values(vals: &Vec<Value>, op: BinOp) -> (r: Value)
    ensures
        r == spec_fold_op(vals@, op),
{
    let n = vals.len();
    if n == 0 {
        let k: u64 = match op {
            BinOp::Mul => 1,
            _ => 0,
        };
        return Value::UInt(k);
    }
    let mut acc = reduce(vals[0].clone());
    assert(vals@.take(1).len() == 1 && vals@.take(1)[0] == vals@[0]);
    let mut i: usize = 1;
    while i < n
        invariant
            1 <= i <= n,
            n == vals@.len(),
            acc == spec_fold_op(vals@.take(i as int), op),
        decreases n - i,
    {
        let next = Value::Expr(Box::new(Expr { op, lhs: acc, rhs: vals[i].clone() }));
        acc = reduce(next);
        proof {
            let t = vals@.take(i + 1);
            assert(t.drop_last() =~= vals@.take(i as int));
            assert(t.last() == vals@[i as int]);
        }
        i = i + 1;
    }
    proof {
        assert(vals@.take(n as int) =~= vals@);
    }
    acc
}

} // verus!
