//! The call-graph side of the language: shapes, port tables, wiring tables,
//! and the calls and steps that a node body is made of.

use vstd::prelude::*;

use crate::strmap::StrMap;
use crate::value::{BinOp, Out, Value};
use crate::value::{spec_fold_op, fold_values};

verus! {

/// Wiring: port name to the upstream output that feeds it.
pub type Outs = StrMap<Out>;

/// Keyword arguments of one call.
pub type Keywords = StrMap<Value>;

/// An ordered list of dimension values, one per tensor dimension.
#[derive(Debug)]
pub struct Shape(pub Vec<Value>);

impl Shape {
    /// The sum of the dimensions, folded as far as the values allow.
    pub fn sum(&self) -> (r: Value)
        ensures
            r == spec_fold_op(self.0@, BinOp::Add),
    {
        fold_values(&self.0, BinOp::Add)
    }

    /// The product of the dimensions, folded as far as the values allow.
    pub fn product(&self) -> (r: Value)
        ensures
            r == spec_fold_op(self.0@, BinOp::Mul),
    {
        fold_values(&self.0, BinOp::Mul)
    }
}

impl Clone for Shape {
    fn clone(&self) -> (r: Self)
        ensures
            r.0@ == self.0@,
    {
        let v = self.0.clone();
        proof {
            assert forall|i: int| 0 <= i < self.0@.len() implies v@[i] == self.0@[i] by {
                assert(vstd::pervasive::cloned::<Value>(self.0@[i], v@[i]));
            }
            assert(v@ =~= self.0@);
        }
        Shape(v)
    }
}

/// What a port table knows of one shape: nothing at all, a port whose size
/// is still to be inferred, or the dimension list itself.
pub open spec fn oshape_view(o: Option<Shape>) -> Option<Seq<Value>> {
    match o {
        Some(s) => Some(s.0@),
        None => None,
    }
}

/// A table from port name to optional shape. `None` means the port exists
/// but its size is still to be inferred. Keys are unique and insertion
/// order carries no meaning.
#[derive(Debug)]
pub struct Shapes(pub StrMap<Option<Shape>>);

impl Shapes {
    pub open spec fn contains_port(&self, k: Seq<char>) -> bool {
        self.0.contains_key(k)
    }

    /// `None`: no such port. `Some(None)`: port present, size unknown.
    /// `Some(Some(dims))`: port present with these dimensions.
    pub open spec fn spec_dims(&self, k: Seq<char>) -> Option<Option<Seq<Value>>> {
        match self.0.spec_get(k) {
            Some(o) => Some(oshape_view(o)),
            None => None,
        }
    }

    pub open spec fn dims_at(&self, i: int) -> Option<Seq<Value>> {
        oshape_view(self.0.spec_val_at(i))
    }

    /// Both tables list the same ports and give every port the same answer.
    pub open spec fn same_view(&self, other: &Shapes) -> bool {
        forall|k: Seq<char>| self.spec_dims(k) == other.spec_dims(k)
    }

    pub fn new(inner: StrMap<Option<Shape>>) -> (r: Self)
        ensures
            r.0 == inner,
    {
        Shapes(inner)
    }

    /// One wiring entry per port, each pointing at the node with this id.
    pub fn to_outs(&self, id: u64) -> (r: Outs)
        ensures
            boundary_outs(r, *self, id),
    {
        proof {
            use_type_invariant(&self.0);
            self.0.lemma_keys_unique();
        }
        let n = self.0.len();
        let mut r: Outs = StrMap::new();
        let mut i: usize = 0;
        while i < n
            invariant
                n == self.0.spec_len(),
                i <= n,
                r.key_seq() =~= self.0.key_seq().take(i as int),
                forall|ii: int, jj: int|
                    0 <= ii < jj < self.0.spec_len() ==> self.0.spec_key_at(ii)
                        != self.0.spec_key_at(jj),
                forall|j: int|
                    #![trigger self.0.spec_key_at(j)]
                    0 <= j < i ==> (r.spec_get(self.0.spec_key_at(j)) matches Some(o) && o.id
                        == Some(id) && o.name@ == self.0.spec_key_at(j)),
            decreases n - i,
        {
            let k = self.0.key_at(i).clone();
            let ghost kv = k@;
            proof {
                assert(r.spec_len() == i);
                if r.contains_key(kv) {
                    let j = choose|j: int| 0 <= j < r.spec_len() && r.spec_key_at(j) == kv;
                    assert(self.0.spec_key_at(j) == self.0.spec_key_at(i as int));
                }
            }
            let o = Out::new(id, k.clone());
            let ghost ov = o;
            r.push_pair(k, o);
            proof {
                assert(r.key_seq() =~= self.0.key_seq().take(i + 1));
                assert(r.spec_get(kv) == Some(ov));
                assert forall|j: int|
                    #![trigger self.0.spec_key_at(j)]
                    0 <= j < i + 1 implies (r.spec_get(self.0.spec_key_at(j)) matches Some(o)
                    && o.id == Some(id) && o.name@ == self.0.spec_key_at(j)) by {
                    if j < i {
                        assert(self.0.spec_key_at(j) != kv);
                    }
                }
            }
            i = i + 1;
        }
        proof {
            assert(r.key_seq() =~= self.0.key_seq());
            assert forall|k: Seq<char>|
                r.contains_key(k) implies (r.spec_get(k) matches Some(o) && o.id == Some(id)
                && o.name@ == k) by {
                let j = choose|j: int| 0 <= j < r.spec_len() && r.spec_key_at(j) == k;
                assert(self.0.spec_key_at(j) == k);
            }
        }
        r
    }
}

impl Clone for Shapes {
    fn clone(&self) -> (r: Self)
        ensures
            r.0.key_seq() == self.0.key_seq(),
            forall|i: int| 0 <= i < r.0.spec_len() ==> r.dims_at(i) == self.dims_at(i),
            r.same_view(self),
    {
        let m = self.0.clone();
        let r = Shapes(m);
        proof {
            use_type_invariant(&self.0);
            use_type_invariant(&r.0);
            assert forall|i: int| 0 <= i < r.0.spec_len() implies r.dims_at(i) == self.dims_at(
                i,
            ) by {
                assert(vstd::pervasive::cloned::<Option<Shape>>(
                    self.0.spec_val_at(i),
                    r.0.spec_val_at(i),
                ));
                lemma_cloned_oshape(self.0.spec_val_at(i), r.0.spec_val_at(i));
            }
            assert forall|k: Seq<char>| r.spec_dims(k) == self.spec_dims(k) by {
                if self.0.contains_key(k) {
                    let i = self.0.index_of(k);
                    assert(0 <= i < self.0.spec_len() && self.0.spec_key_at(i) == k);
                    assert(r.0.spec_key_at(i) == k);
                    self.0.lemma_at_get(i);
                    r.0.lemma_at_get(i);
                } else if r.0.contains_key(k) {
                    let i = r.0.index_of(k);
                    assert(0 <= i < r.0.spec_len() && r.0.spec_key_at(i) == k);
                    assert(self.0.spec_key_at(i) == k);
                }
            }
        }
        r
    }
}

/// Wiring that points every port of a shape table at one node id.
pub open spec fn boundary_outs(o: Outs, s: Shapes, id: u64) -> bool {
    &&& o.key_seq() == s.0.key_seq()
    &&& forall|k: Seq<char>|
        o.contains_key(k) ==> (o.spec_get(k) matches Some(x) && x.id == Some(id) && x.name@ == k)
}

/// A cloned optional shape shows the same dimensions as its source.
pub proof fn lemma_cloned_oshape(a: Option<Shape>, b: Option<Shape>)
    requires
        vstd::pervasive::cloned::<Option<Shape>>(a, b),
    ensures
        oshape_view(a) == oshape_view(b),
{
    if a != b {
        assert(call_ensures(<Option<Shape> as Clone>::clone, (&a,), b));
        match (a, b) {
            (Some(x), Some(y)) => {
                assert(vstd::pervasive::cloned::<Shape>(x, y));
                if x != y {
                    assert(call_ensures(<Shape as Clone>::clone, (&x,), y));
                }
            },
            _ => {},
        }
    }
}

#[derive(Clone, Copy, Debug, PartialEq, Eq, Structural)]
pub enum GraphInputsType {
    UseLast,
    Dict,
    List,
}

/// The inputs a call hands to its callee: keyed wiring, an ordered list,
/// or nothing (use the previous step's outputs).
pub enum GraphInputs {
    Dict(Outs),
    List(Vec<Out>),
}

impl GraphInputs {
    pub open spec fn spec_ty(&self) -> GraphInputsType {
        match self {
            GraphInputs::Dict(_) => GraphInputsType::Dict,
            GraphInputs::List(_) => GraphInputsType::List,
        }
    }

    pub fn ty(&self) -> (r: GraphInputsType)
        ensures
            r == self.spec_ty(),
    {
        match self {
            GraphInputs::Dict(_) => GraphInputsType::Dict,
            GraphInputs::List(_) => GraphInputsType::List,
        }
    }

    pub fn unwrap_dict(self) -> (r: Option<Outs>)
        ensures
            match self {
                GraphInputs::Dict(outs) => r == Some(outs),
                GraphInputs::List(_) => r is None,
            },
    {
        match self {
            GraphInputs::Dict(outs) => Some(outs),
            GraphInputs::List(_) => None,
        }
    }

    pub fn unwrap_list(self) -> (r: Option<Vec<Out>>)
        ensures
            match self {
                GraphInputs::List(list) => r == Some(list),
                GraphInputs::Dict(_) => r is None,
            },
    {
        match self {
            GraphInputs::List(list) => Some(list),
            GraphInputs::Dict(_) => None,
        }
    }
}

impl Default for GraphInputs {
    fn default() -> (r: Self)
        ensures
            r matches GraphInputs::Dict(outs) && outs.spec_len() == 0,
    {
        GraphInputs::Dict(StrMap::new())
    }
}

/// One invocation inside a node body.
pub struct GraphCall {
    pub name: String,
    pub inputs: Option<GraphInputs>,
    pub args: Option<Keywords>,
    pub repeat: Option<Value>,
}

impl GraphCall {
    pub open spec fn spec_inputs_ty(&self) -> GraphInputsType {
        match &self.inputs {
            Some(inputs) => inputs.spec_ty(),
            None => GraphInputsType::UseLast,
        }
    }

    pub fn get_inputs_ty(&self) -> (r: GraphInputsType)
        ensures
            r == self.spec_inputs_ty(),
    {
        match &self.inputs {
            Some(inputs) => inputs.ty(),
            None => GraphInputsType::UseLast,
        }
    }
}

/// One step of a node body: its id, the calls at this step, and the
/// declared output shapes to check the resolved result against, if any.
pub struct GraphNode {
    pub id: u64,
    pub calls: Vec<GraphCall>,
    pub shapes: Option<Shapes>,
}

} // verus!

