//! The tensor-level intermediate representation: the common node header,
//! leaf nodes with explicit shapes, the graph of nodes a composite holds,
//! and the lowering of all of them to executable code units.

use vstd::prelude::*;

use crate::error::Error;
use crate::graph::{boundary_outs, Outs, Shapes};
use crate::ir::NodeIR;
use crate::seed::Seed;
use crate::value::Value;
use crate::vars::{Graph, Variable};
use crate::strmap::StrMap;

verus! {

/// The common header of every IR node: its placed id (0 until placed),
/// its name, its variable graph, and its explicit wiring, if any.
#[derive(Debug)]
pub struct IRData {
    pub id: u64,
    pub name: String,
    pub graph: Graph,
    pub input: Option<Outs>,
    pub output: Option<Outs>,
}

/// Optional wiring tables answer every port alike.
pub open spec fn outs_similar(a: Option<Outs>, b: Option<Outs>) -> bool {
    match (a, b) {
        (Some(x), Some(y)) => {
            &&& x.key_seq() == y.key_seq()
            &&& forall|k: Seq<char>| x.spec_get(k) == y.spec_get(k)
        },
        (None, None) => true,
        _ => false,
    }
}

/// Optional shape tables answer every port alike.
pub open spec fn shapes_similar(a: Option<Shapes>, b: Option<Shapes>) -> bool {
    match (a, b) {
        (Some(x), Some(y)) => {
            &&& x.0.key_seq() == y.0.key_seq()
            &&& x.same_view(&y)
        },
        (None, None) => true,
        _ => false,
    }
}

/// Headers that carry the same placement, name, bindings and wiring; the
/// identity of the variable graph is left free, which is what a safe
/// duplicate changes.
pub open spec fn data_similar(a: IRData, b: IRData) -> bool {
    &&& a.id == b.id
    &&& a.name@ == b.name@
    &&& a.graph.same_vars(&b.graph)
    &&& outs_similar(a.input, b.input)
    &&& outs_similar(a.output, b.output)
}

impl IRData {
    pub fn new(name: String, graph: Graph, input: Option<&Shapes>, output: Option<&Shapes>) -> (r:
        Self)
        ensures
            r.id == 0,
            r.name == name,
            r.graph == graph,
            match input {
                Some(s) => r.input matches Some(o) && boundary_outs(o, *s, 0),
                None => r.input is None,
            },
            match output {
                Some(s) => r.output matches Some(o) && boundary_outs(o, *s, 1),
                None => r.output is None,
            },
    {
        IRData {
            id: 0,
            name,
            graph,
            input: match input {
                Some(s) => Some(s.to_outs(0)),
                None => None,
            },
            output: match output {
                Some(s) => Some(s.to_outs(1)),
                None => None,
            },
        }
    }

    /// A duplicate with the same content whose variable graph is a fresh
    /// handle minted from the seed.
    pub fn clone_safe(&self, seed: &mut Seed, minted: &mut Vec<String>) -> (r: Self)
        ensures
            data_similar(r, *self),
            r.graph.id == old(seed).peek(),
            final(minted)@.len() >= old(minted)@.len(),
            old(minted)@.is_prefix_of(final(minted)@),
    {
        IRData {
            id: self.id,
            name: self.name.clone(),
            graph: self.graph.clone_safe(seed, minted),
            input: clone_outs(&self.input),
            output: clone_outs(&self.output),
        }
    }
}

/// Copies an optional wiring table; every port keeps its entry.
pub fn clone_outs(o: &Option<Outs>) -> (r: Option<Outs>)
    ensures
        outs_similar(*o, r),
{
    match o {
        Some(x) => {
            let y = x.clone();
            proof {
                use_type_invariant(x);
                use_type_invariant(&y);
                assert forall|i: int| 0 <= i < x.spec_len() implies x.spec_val_at(i)
                    == y.spec_val_at(i) by {
                    crate::value::lemma_cloned_out(x.spec_val_at(i), y.spec_val_at(i));
                }
                x.lemma_equal_views(&y);
            }
            Some(y)
        },
        None => None,
    }
}

/// A leaf node: a generated single-variable sub-graph plus its declared
/// input and output shapes.
#[derive(Debug)]
pub struct ExternIR {
    pub data: IRData,
    pub input: Option<Shapes>,
    pub output: Option<Shapes>,
}

impl ExternIR {
    pub fn new(name: String, graph: Graph, input: Option<Shapes>, output: Option<Shapes>) -> (r:
        Self)
        ensures
            r.data.id == 0,
            r.data.name == name,
            r.data.graph == graph,
            r.input == input,
            r.output == output,
            match input {
                Some(s) => r.data.input matches Some(o) && boundary_outs(o, s, 0),
                None => r.data.input is None,
            },
            match output {
                Some(s) => r.data.output matches Some(o) && boundary_outs(o, s, 1),
                None => r.data.output is None,
            },
    {
        let data = IRData::new(name, graph, input.as_ref(), output.as_ref());
        ExternIR { data, input, output }
    }

    pub fn get_input_shapes<'a>(&'a self) -> (r: Option<&'a Shapes>)
        ensures
            match r {
                Some(s) => self.input == Some(*s),
                None => self.input is None,
            },
    {
        self.input.as_ref()
    }

    pub fn get_output_shapes<'a>(&'a self) -> (r: Option<&'a Shapes>)
        ensures
            match r {
                Some(s) => self.output == Some(*s),
                None => self.output is None,
            },
    {
        self.output.as_ref()
    }

    /// Lowers the leaf to one executable code unit: the wiring (empty for
    /// ports never wired), the generated variable graph, and the resolved
    /// boundary shape tables, kept exactly as the leaf holds them.
    pub fn build(self) -> (r: ExternCode)
        ensures
            r.name == self.data.name,
            match self.data.input {
                Some(o) => r.input == o,
                None => r.input.spec_len() == 0,
            },
            match self.data.output {
                Some(o) => r.output == o,
                None => r.output.spec_len() == 0,
            },
            r.graph == self.data.graph,
            r.input_shapes == self.input,
            r.output_shapes == self.output,
    {
        ExternCode {
            name: self.data.name,
            input: match self.data.input {
                Some(o) => o,
                None => StrMap::new(),
            },
            output: match self.data.output {
                Some(o) => o,
                None => StrMap::new(),
            },
            graph: self.data.graph,
            input_shapes: self.input,
            output_shapes: self.output,
        }
    }

    /// A duplicate sharing nothing with this leaf: same content, fresh
    /// variable-graph identity.
    pub fn clone_safe(&self, seed: &mut Seed, minted: &mut Vec<String>) -> (r: Self)
        ensures
            extern_similar(r, *self),
            final(minted)@.len() >= old(minted)@.len(),
            old(minted)@.is_prefix_of(final(minted)@),
    {
        let data = self.data.clone_safe(seed, minted);
        let input = clone_oshapes(&self.input);
        let output = clone_oshapes(&self.output);
        ExternIR { data, input, output }
    }
}

pub open spec fn extern_similar(a: ExternIR, b: ExternIR) -> bool {
    &&& data_similar(a.data, b.data)
    &&& shapes_similar(a.input, b.input)
    &&& shapes_similar(a.output, b.output)
}

/// Copies an optional shape table; every port keeps its dimensions.
pub fn clone_oshapes(s: &Option<Shapes>) -> (r: Option<Shapes>)
    ensures
        shapes_similar(*s, r),
{
    match s {
        Some(x) => Some(x.clone()),
        None => None,
    }
}

/// One step of a composite body: a nested composite or a leaf.
#[derive(Debug)]
pub enum TensorNode {
    Node(NodeIR),
    Extern(ExternIR),
}

/// The ordered nodes a composite owns.
#[derive(Debug)]
pub struct TensorGraph(pub Vec<TensorNode>);

/// One executable code unit per tensor node.
#[derive(Debug)]
pub enum Code {
    Node(NodeCode),
    Extern(ExternCode),
}

#[derive(Debug)]
pub struct NodeCode {
    pub name: String,
    pub input: Outs,
    pub output: Outs,
    pub graph: Vec<Code>,
}

#[derive(Debug)]
pub struct ExternCode {
    pub name: String,
    pub input: Outs,
    pub output: Outs,
    pub graph: Graph,
    /// The resolved boundary shape tables the leaf was built with; they
    /// travel with the code unit so that what comes after lowering can
    /// recover the port-to-dimensions mapping without re-deriving it.
    pub input_shapes: Option<Shapes>,
    pub output_shapes: Option<Shapes>,
}

/// Whether this node is the implicit graph input placeholder.
pub open spec fn spec_is_input(n: TensorNode) -> bool {
    match n {
        TensorNode::Node(node) => node.data.id == 0,
        TensorNode::Extern(_) => false,
    }
}

/// A single-port table whose one port `x` is left unsized: the marker of
/// a trailing pass-through node, skipped when the graph's output shapes
/// are read.
pub open spec fn spec_dynamic(s: Shapes) -> bool {
    s.0.spec_len() == 1 && s.spec_dims("x"@) == Some(None::<Seq<crate::value::Value>>)
}

/// The input shapes a node exposes.
pub open spec fn node_input_shapes(n: TensorNode) -> Option<Shapes>
    decreases n, 0int,
{
    match n {
        TensorNode::Node(node) => graph_input_shapes(node.tensor_graph),
        TensorNode::Extern(e) => e.input,
    }
}

/// The output shapes a node exposes.
pub open spec fn node_output_shapes(n: TensorNode) -> Option<Shapes>
    decreases n, 0int,
{
    match n {
        TensorNode::Node(node) => graph_output_shapes(node.tensor_graph),
        TensorNode::Extern(e) => e.output,
    }
}

/// The effective input shapes of a graph: the first node's output shapes
/// when it is the input placeholder, else its input shapes.
pub open spec fn graph_input_shapes(g: TensorGraph) -> Option<Shapes>
    decreases g, 1int,
{
    if g.0@.len() == 0 {
        None
    } else if spec_is_input(g.0@[0]) {
        node_output_shapes(g.0@[0])
    } else {
        node_input_shapes(g.0@[0])
    }
}

/// Scanning from the back over the first `j` nodes: the last node whose
/// output shapes are present and not a dynamic pass-through marker wins;
/// when none does, the very last node's output shapes are the answer.
pub open spec fn scan_output_shapes(s: Seq<TensorNode>, j: nat) -> Option<Shapes>
    decreases s, j,
{
    if s.len() == 0 {
        None
    } else if j == 0 {
        node_output_shapes(s[s.len() - 1])
    } else if j > s.len() {
        scan_output_shapes(s, s.len() as nat)
    } else {
        match node_output_shapes(s[j - 1]) {
            Some(sh) => if !spec_dynamic(sh) {
                Some(sh)
            } else {
                scan_output_shapes(s, (j - 1) as nat)
            },
            None => scan_output_shapes(s, (j - 1) as nat),
        }
    }
}

pub open spec fn graph_output_shapes(g: TensorGraph) -> Option<Shapes>
    decreases g, 1int,
{
    scan_output_shapes(g.0@, g.0@.len())
}

/// Nodes with the same structure, placement, names, bindings, wiring and
/// shapes; only the identities minted for variable graphs may differ.
pub open spec fn node_similar(a: TensorNode, b: TensorNode) -> bool
    decreases a, 0int,
{
    match (a, b) {
        (TensorNode::Extern(x), TensorNode::Extern(y)) => extern_similar(x, y),
        (TensorNode::Node(x), TensorNode::Node(y)) => {
            &&& data_similar(x.data, y.data)
            &&& x.repeat == y.repeat
            &&& x.ty == y.ty
            &&& graph_similar(x.tensor_graph, y.tensor_graph)
        },
        _ => false,
    }
}

pub open spec fn graph_similar(a: TensorGraph, b: TensorGraph) -> bool
    decreases a, 1int,
{
    &&& a.0@.len() == b.0@.len()
    &&& forall|i: int| #![trigger a.0@[i]] 0 <= i < a.0@.len() ==> nodes_similar_at(a.0@, b.0@, i)
}

pub open spec fn nodes_similar_at(a: Seq<TensorNode>, b: Seq<TensorNode>, i: int) -> bool
    decreases a, 0int,
{
    if 0 <= i < a.len() && 0 <= i < b.len() {
        node_similar(a[i], b[i])
    } else {
        true
    }
}

impl TensorNode {
    pub open spec fn spec_name(&self) -> Seq<char> {
        match self {
            TensorNode::Node(node) => node.data.name@,
            TensorNode::Extern(node) => node.data.name@,
        }
    }

    pub fn is_input(&self) -> (r: bool)
        ensures
            r == spec_is_input(*self),
    {
        match self {
            TensorNode::Node(node) => node.data.id == 0,
            TensorNode::Extern(_) => false,
        }
    }

    pub fn name<'a>(&'a self) -> (r: &'a String)
        ensures
            r@ == self.spec_name(),
    {
        match self {
            TensorNode::Node(node) => &node.data.name,
            TensorNode::Extern(node) => &node.data.name,
        }
    }

    pub fn get_input_shapes<'a>(&'a self) -> (r: Option<&'a Shapes>)
        ensures
            match r {
                Some(s) => node_input_shapes(*self) == Some(*s),
                None => node_input_shapes(*self) is None,
            },
        decreases *self,
    {
        match self {
            TensorNode::Node(node) => node.get_input_shapes(),
            TensorNode::Extern(node) => node.get_input_shapes(),
        }
    }

    pub fn get_output_shapes<'a>(&'a self) -> (r: Option<&'a Shapes>)
        ensures
            match r {
                Some(s) => node_output_shapes(*self) == Some(*s),
                None => node_output_shapes(*self) is None,
            },
        decreases *self,
    {
        match self {
            TensorNode::Node(node) => node.get_output_shapes(),
            TensorNode::Extern(node) => node.get_output_shapes(),
        }
    }

    /// Binds every given variable on this node's own graph, replacing old
    /// bindings of the same names. A composite that wraps exactly one leaf
    /// shares its variable scope with that leaf, so the bindings land on
    /// the leaf's generated graph as well; shapes are untouched either way.
    pub fn apply_variables(&mut self, variables: StrMap<Variable>)
        ensures
            forall|k: Seq<char>|
                #![trigger variables.contains_key(k)]
                variables.contains_key(k) ==> (*final(self)).node_graph().variables.spec_get(k)
                    == variables.spec_get(k),
            forall|k: Seq<char>|
                !variables.contains_key(k) ==> (*final(self)).node_graph().variables.spec_get(k)
                    == old(self).node_graph().variables.spec_get(k),
            (*final(self)).node_data().id == old(self).node_data().id,
            (*final(self)).node_data().name == old(self).node_data().name,
            (*final(self)).node_data().input == old(self).node_data().input,
            (*final(self)).node_data().output == old(self).node_data().output,
            node_input_shapes(*final(self)) == node_input_shapes(*old(self)),
            node_output_shapes(*final(self)) == node_output_shapes(*old(self)),
            match wrapped_leaf(*old(self)) {
                Some(le) => wrapped_leaf(*final(self)) matches Some(le2) && le2.data.graph.id
                    == le.data.graph.id && (forall|k: Seq<char>|
                    #![trigger variables.contains_key(k)]
                    variables.contains_key(k) ==> le2.data.graph.variables.spec_get(k)
                        == variables.spec_get(k)) && (forall|k: Seq<char>|
                    !variables.contains_key(k) ==> le2.data.graph.variables.spec_get(k)
                        == le.data.graph.variables.spec_get(k)) && le2.input == le.input
                    && le2.output == le.output && le2.data.name == le.data.name && le2.data.id
                    == le.data.id,
                None => wrapped_leaf(*final(self)) is None,
            },
    {
        let g = self.node_graph_mut();
        g.bind_all(&variables);
        match self {
            TensorNode::Node(node) => {
                if node.tensor_graph.0.len() == 1 {
                    let ghost tg0 = node.tensor_graph.0@;
                    let leaf = node.tensor_graph.0.remove(0);
                    let leaf2 = match leaf {
                        TensorNode::Extern(e) => {
                            let mut e = e;
                            e.data.graph.bind_all(&variables);
                            TensorNode::Extern(e)
                        },
                        other => other,
                    };
                    node.tensor_graph.0.insert(0, leaf2);
                    proof {
                        assert(node.tensor_graph.0@ =~= tg0.update(0, node.tensor_graph.0@[0]));
                        assert(node_input_shapes(node.tensor_graph.0@[0]) == node_input_shapes(
                            tg0[0],
                        ));
                        assert(node_output_shapes(node.tensor_graph.0@[0]) == node_output_shapes(
                            tg0[0],
                        ));
                        assert(spec_is_input(node.tensor_graph.0@[0]) == spec_is_input(tg0[0]));
                        assert(scan_output_shapes(node.tensor_graph.0@, 0) == scan_output_shapes(
                            tg0,
                            0,
                        ));
                        assert(scan_output_shapes(node.tensor_graph.0@, 1) == scan_output_shapes(
                            tg0,
                            1,
                        ));
                    }
                }
            },
            TensorNode::Extern(_) => {},
        }
    }

    /// The variable graph in this node's header.
    pub open spec fn node_graph(&self) -> Graph {
        match self {
            TensorNode::Node(node) => node.data.graph,
            TensorNode::Extern(node) => node.data.graph,
        }
    }

    fn node_graph_mut<'a>(&'a mut self) -> (r: &'a mut Graph)
        ensures
            *r == old(self).node_graph(),
            (*final(self)).node_graph() == *final(r),
            match *old(self) {
                TensorNode::Node(node) => *final(self) matches TensorNode::Node(n2) && n2.data.id
                    == node.data.id && n2.data.name == node.data.name && n2.data.input
                    == node.data.input && n2.data.output == node.data.output && n2.tensor_graph
                    == node.tensor_graph && n2.repeat == node.repeat && n2.ty == node.ty
                    && n2.data.graph == *final(r),
                TensorNode::Extern(node) => *final(self) matches TensorNode::Extern(n2)
                    && n2.data.id == node.data.id && n2.data.name == node.data.name
                    && n2.data.input == node.data.input && n2.data.output == node.data.output
                    && n2.input == node.input && n2.output == node.output && n2.data.graph
                    == *final(r),
            },
    {
        match self {
            TensorNode::Node(node) => &mut node.data.graph,
            TensorNode::Extern(node) => &mut node.data.graph,
        }
    }

    /// Lowers this node to its executable code unit.
    pub fn build(self) -> (r: Result<Code, Error>)
        ensures
            match r {
                Ok(code) => node_buildable(self) && lowered_code_ok(self, code),
                Err(e) => !node_buildable(self) && (e matches Error::RepeatNotSupported { .. } || e
                    matches Error::GenericShapes),
            },
        decreases self,
    {
        match self {
            TensorNode::Node(node) => match node.build() {
                Ok(c) => Ok(Code::Node(c)),
                Err(e) => Err(e),
            },
            TensorNode::Extern(node) => Ok(Code::Extern(node.build())),
        }
    }

    /// A duplicate sharing nothing with this node.
    pub fn clone_safe(&self, seed: &mut Seed, minted: &mut Vec<String>) -> (r: Self)
        ensures
            node_similar(r, *self),
            final(minted)@.len() >= old(minted)@.len(),
            old(minted)@.is_prefix_of(final(minted)@),
        decreases *self,
    {
        match self {
            TensorNode::Node(node) => TensorNode::Node(node.clone_safe(seed, minted)),
            TensorNode::Extern(node) => TensorNode::Extern(node.clone_safe(seed, minted)),
        }
    }
}

/// The single leaf a composite wraps directly, when it wraps exactly
/// one; such a composite shares its variable scope with the leaf.
pub open spec fn wrapped_leaf(n: TensorNode) -> Option<ExternIR> {
    match n {
        TensorNode::Node(x) => if x.tensor_graph.0@.len() == 1 {
            match x.tensor_graph.0@[0] {
                TensorNode::Extern(e) => Some(e),
                _ => None,
            }
        } else {
            None
        },
        TensorNode::Extern(_) => None,
    }
}

/// What must hold of a node for the build pass to lower it: no repeat
/// count on a composite, a shape table behind every defaulted boundary,
/// and the same again for every nested node.
pub open spec fn node_buildable(n: TensorNode) -> bool
    decreases n, 1int,
{
    match n {
        TensorNode::Extern(_) => true,
        TensorNode::Node(node) => {
            &&& node.repeat is None
            &&& (node.data.input is Some || graph_input_shapes(node.tensor_graph) is Some)
            &&& (node.data.output is Some || graph_output_shapes(node.tensor_graph) is Some)
            &&& graph_buildable(node.tensor_graph)
        },
    }
}

pub open spec fn graph_buildable(g: TensorGraph) -> bool
    decreases g, 2int,
{
    forall|i: int| #![trigger g.0@[i]] 0 <= i < g.0@.len() ==> seq_node_buildable(g.0@, i)
}

pub open spec fn seq_node_buildable(s: Seq<TensorNode>, i: int) -> bool
    decreases s, 1int,
{
    if 0 <= i < s.len() {
        node_buildable(s[i])
    } else {
        true
    }
}

/// A graph with one unbuildable node is not buildable.
pub proof fn lemma_not_buildable(g: TensorGraph, i: int)
    requires
        0 <= i < g.0@.len(),
        !seq_node_buildable(g.0@, i),
    ensures
        !graph_buildable(g),
{
    if graph_buildable(g) {
        assert(g.0@[i] == g.0@[i]);
        assert(seq_node_buildable(g.0@, i));
    }
}

/// What the lowering of a composite promises: the name is kept, explicit
/// wiring is kept, defaulted wiring points each boundary port of the
/// shape tables at the conventional ids, and the body is lowered node by
/// node, each code unit the lowering of the node at its position.
pub open spec fn node_code_ok(n: NodeIR, c: NodeCode) -> bool
    decreases n, 0int,
{
    &&& c.name == n.data.name
    &&& (match n.data.input {
        Some(o) => c.input == o,
        None => graph_input_shapes(n.tensor_graph) matches Some(s) && boundary_outs(
            c.input,
            s,
            0,
        ),
    })
    &&& (match n.data.output {
        Some(o) => c.output == o,
        None => graph_output_shapes(n.tensor_graph) matches Some(s) && boundary_outs(
            c.output,
            s,
            1,
        ),
    })
    &&& c.graph@.len() == n.tensor_graph.0@.len()
    &&& forall|i: int|
        #![trigger c.graph@[i]]
        0 <= i < c.graph@.len() ==> graph_code_ok_at(n.tensor_graph.0@, c.graph@, i)
}

/// Whether the code unit at one position is the lowering of the node at
/// that position.
pub open spec fn graph_code_ok_at(s: Seq<TensorNode>, cs: Seq<Code>, i: int) -> bool
    decreases s, 2int,
{
    if 0 <= i < s.len() && 0 <= i < cs.len() {
        lowered_code_ok(s[i], cs[i])
    } else {
        true
    }
}

/// What lowering one node promises: a composite lowers per
/// `node_code_ok`; a leaf keeps its name, its variable graph, its wiring
/// (empty where never wired) and its resolved shape tables.
pub open spec fn lowered_code_ok(n: TensorNode, c: Code) -> bool
    decreases n, 3int,
{
    match (n, c) {
        (TensorNode::Node(x), Code::Node(cc)) => node_code_ok(x, cc),
        (TensorNode::Extern(x), Code::Extern(cc)) => {
            &&& cc.name == x.data.name
            &&& cc.graph == x.data.graph
            &&& cc.input_shapes == x.input
            &&& cc.output_shapes == x.output
            &&& (match x.data.input {
                Some(o) => cc.input == o,
                None => cc.input.spec_len() == 0,
            })
            &&& (match x.data.output {
                Some(o) => cc.output == o,
                None => cc.output.spec_len() == 0,
            })
        },
        _ => false,
    }
}

impl TensorGraph {
    pub fn get_input_shapes<'a>(&'a self) -> (r: Option<&'a Shapes>)
        ensures
            match r {
                Some(s) => graph_input_shapes(*self) == Some(*s),
                None => graph_input_shapes(*self) is None,
            },
        decreases *self,
    {
        if self.0.len() == 0 {
            return None;
        }
        let first = &self.0[0];
        if first.is_input() {
            first.get_output_shapes()
        } else {
            first.get_input_shapes()
        }
    }

    pub fn get_output_shapes<'a>(&'a self) -> (r: Option<&'a Shapes>)
        ensures
            match r {
                Some(s) => graph_output_shapes(*self) == Some(*s),
                None => graph_output_shapes(*self) is None,
            },
        decreases *self,
    {
        let n = self.0.len();
        if n == 0 {
            return None;
        }
        let mut j: usize = n;
        while j > 0
            invariant
                n == self.0@.len(),
                j <= n,
                scan_output_shapes(self.0@, n as nat) == scan_output_shapes(self.0@, j as nat),
            decreases j,
        {
            match self.0[j - 1].get_output_shapes() {
                Some(sh) => {
                    if !shapes_is_dynamic(sh) {
                        return Some(sh);
                    }
                },
                None => {},
            }
            j = j - 1;
        }
        self.0[n - 1].get_output_shapes()
    }

    /// Lowers every node in sequence; the first failure aborts the build.
    #[verifier::loop_isolation(false)]
    pub fn build(self) -> (r: Result<Vec<Code>, Error>)
        ensures
            match r {
                Ok(codes) => {
                    &&& graph_buildable(self)
                    &&& codes@.len() == self.0@.len()
                    &&& forall|i: int|
                        #![trigger codes@[i]]
                        0 <= i < codes@.len() ==> graph_code_ok_at(self.0@, codes@, i)
                },
                Err(e) => !graph_buildable(self) && (e matches Error::RepeatNotSupported { .. } || e
                    matches Error::GenericShapes),
            },
        decreases self,
    {
        let TensorGraph(nodes) = self;
        let ghost nodes0 = nodes@;
        let mut out: Vec<Code> = Vec::new();
        let mut rest = nodes;
        let mut i: usize = 0;
        let n = rest.len();
        proof {
            assert(nodes0.skip(0) =~= nodes0);
            assert(self.0@ == nodes0);
        }
        // consume from the front, keeping the untouched tail intact
        while i < n
            invariant
                n == nodes0.len(),
                i <= n,
                rest@ =~= nodes0.skip(i as int),
                out@.len() == i,
                forall|j: int| #![trigger nodes0[j]] 0 <= j < i ==> seq_node_buildable(nodes0, j),
                forall|j: int| #![trigger out@[j]] 0 <= j < i ==> graph_code_ok_at(nodes0, out@, j),
            decreases n - i,
        {
            let node = rest.remove(0);
            proof {
                assert(node == nodes0[i as int]);
                assert(decreases_to!(self => self.0));
                assert(decreases_to!(self.0 => self.0@));
                assert(decreases_to!(self.0@ => self.0@[i as int]));
                assert(self.0@[i as int] == node);
                assert(decreases_to!(self => node));
            }
            match node.build() {
                Ok(c) => {
                    let ghost out0 = out@;
                    let ghost cv = c;
                    out.push(c);
                    proof {
                        assert(nodes0[i as int] == node);
                        assert(seq_node_buildable(nodes0, i as int));
                        assert forall|j: int|
                            #![trigger out@[j]]
                            0 <= j < i + 1 implies graph_code_ok_at(nodes0, out@, j) by {
                            if j < i {
                                assert(out@[j] == out0[j]);
                                assert(graph_code_ok_at(nodes0, out0, j));
                            } else {
                                assert(out@[j] == cv);
                                assert(lowered_code_ok(node, cv));
                            }
                        }
                    }
                },
                Err(e) => {
                    proof {
                        assert(!seq_node_buildable(self.0@, i as int));
                        lemma_not_buildable(self, i as int);
                    }
                    return Err(e);
                },
            }
            proof {
                assert(rest@ =~= nodes0.skip(i + 1));
            }
            i = i + 1;
        }
        proof {
            assert forall|j: int| #![trigger self.0@[j]] 0 <= j < self.0@.len() implies
                seq_node_buildable(self.0@, j) by {
                assert(nodes0[j] == self.0@[j]);
            }
            assert forall|j: int|
                #![trigger out@[j]]
                0 <= j < out@.len() implies graph_code_ok_at(self.0@, out@, j) by {
                assert(graph_code_ok_at(nodes0, out@, j));
            }
        }
        Ok(out)
    }

    /// A duplicate sharing nothing with this graph.
    #[verifier::loop_isolation(false)]
    pub fn clone_safe(&self, seed: &mut Seed, minted: &mut Vec<String>) -> (r: Self)
        ensures
            graph_similar(r, *self),
            final(minted)@.len() >= old(minted)@.len(),
            old(minted)@.is_prefix_of(final(minted)@),
        decreases *self,
    {
        let n = self.0.len();
        let mut out: Vec<TensorNode> = Vec::new();
        let mut i: usize = 0;
        while i < n
            invariant
                n == self.0@.len(),
                i <= n,
                out@.len() == i,
                minted@.len() >= old(minted)@.len(),
                old(minted)@.is_prefix_of(minted@),
                forall|j: int| #![trigger self.0@[j]] 0 <= j < i ==> nodes_similar_at(out@, self.0@, j),
            decreases n - i,
        {
            let c = self.0[i].clone_safe(seed, minted);
            proof {
                assert(old(minted)@ =~= minted@.subrange(0, old(minted)@.len() as int));
            }
            let ghost out0 = out@;
            out.push(c);
            proof {
                assert forall|j: int|
                    #![trigger self.0@[j]]
                    0 <= j < i + 1 implies nodes_similar_at(out@, self.0@, j) by {
                    if j < i {
                        assert(nodes_similar_at(out0, self.0@, j));
                        assert(out@[j] == out0[j]);
                    } else {
                        assert(out@[j] == c);
                    }
                }
            }
            i = i + 1;
        }
        let r = TensorGraph(out);
        proof {
            assert forall|j: int|
                #![trigger r.0@[j]]
                0 <= j < r.0@.len() implies nodes_similar_at(r.0@, self.0@, j) by {
                assert(self.0@[j] == self.0@[j]);
                assert(nodes_similar_at(out@, self.0@, j));
            }
        }
        r
    }
}

impl TensorNode {
    /// The header of either variant.
    pub open spec fn node_data(&self) -> IRData {
        match self {
            TensorNode::Node(node) => node.data,
            TensorNode::Extern(node) => node.data,
        }
    }

    /// Places the node under a step id; everything else stays.
    pub fn set_id(&mut self, id: u64)
        ensures
            (*final(self)).node_data().id == id,
            (*final(self)).node_data().name == old(self).node_data().name,
            (*final(self)).node_data().graph == old(self).node_data().graph,
            (*final(self)).node_data().input == old(self).node_data().input,
            (*final(self)).node_data().output == old(self).node_data().output,
            node_input_shapes(*final(self)) == node_input_shapes(*old(self)),
            node_output_shapes(*final(self)) == node_output_shapes(*old(self)),
            (*final(self)) matches TensorNode::Node(_) <==> *old(self) matches TensorNode::Node(
                _,
            ),
    {
        match self {
            TensorNode::Node(node) => {
                node.data.id = id;
            },
            TensorNode::Extern(node) => {
                node.data.id = id;
            },
        }
    }

    /// Attaches a resolved repeat count. A leaf cannot repeat; handing it
    /// one is refused rather than dropped.
    pub fn set_repeat(&mut self, r: Option<Value>) -> (res: Result<(), Error>)
        ensures
            match res {
                Ok(_) => match *old(self) {
                    TensorNode::Node(node) => (*final(self) matches TensorNode::Node(n2)
                        && n2.repeat == r && n2.data == node.data && n2.tensor_graph
                        == node.tensor_graph && n2.ty == node.ty),
                    TensorNode::Extern(_) => r is None && *final(self) == *old(self),
                },
                Err(e) => {
                    &&& *final(self) == *old(self)
                    &&& *old(self) matches TensorNode::Extern(_)
                    &&& r is Some
                    &&& e matches Error::RepeatNotSupported { .. }
                },
            },
    {
        match self {
            TensorNode::Node(node) => {
                node.repeat = r;
                Ok(())
            },
            TensorNode::Extern(node) => match r {
                None => Ok(()),
                Some(_) => Err(Error::RepeatNotSupported { name: node.data.name.clone() }),
            },
        }
    }

    /// Replaces the explicit input wiring.
    pub fn set_input_outs(&mut self, o: Option<Outs>)
        ensures
            (*final(self)).node_data().input == o,
            (*final(self)).node_data().id == old(self).node_data().id,
            (*final(self)).node_data().name == old(self).node_data().name,
            (*final(self)).node_data().graph == old(self).node_data().graph,
            (*final(self)).node_data().output == old(self).node_data().output,
            node_input_shapes(*final(self)) == node_input_shapes(*old(self)),
            node_output_shapes(*final(self)) == node_output_shapes(*old(self)),
    {
        match self {
            TensorNode::Node(node) => {
                node.data.input = o;
            },
            TensorNode::Extern(node) => {
                node.data.input = o;
            },
        }
    }

    /// Replaces the explicit output wiring.
    pub fn set_output_outs(&mut self, o: Option<Outs>)
        ensures
            (*final(self)).node_data().output == o,
            (*final(self)).node_data().id == old(self).node_data().id,
            (*final(self)).node_data().name == old(self).node_data().name,
            (*final(self)).node_data().graph == old(self).node_data().graph,
            (*final(self)).node_data().input == old(self).node_data().input,
            node_input_shapes(*final(self)) == node_input_shapes(*old(self)),
            node_output_shapes(*final(self)) == node_output_shapes(*old(self)),
    {
        match self {
            TensorNode::Node(node) => {
                node.data.output = o;
            },
            TensorNode::Extern(node) => {
                node.data.output = o;
            },
        }
    }

    /// The names of the ports this node declares as inputs; none when the
    /// wiring was never set.
    pub fn input_port_keys(&self) -> (r: Vec<String>)
        ensures
            match self.node_data().input {
                Some(o) => r@.len() == o.spec_len() && forall|i: int|
                    0 <= i < r@.len() ==> r@[i]@ == o.spec_key_at(i),
                None => r@.len() == 0,
            },
    {
        match self {
            TensorNode::Node(node) => match &node.data.input {
                Some(o) => o.keys(),
                None => Vec::new(),
            },
            TensorNode::Extern(node) => match &node.data.input {
                Some(o) => o.keys(),
                None => Vec::new(),
            },
        }
    }

    /// Whether this node has a slot behind its effective input shapes: a
    /// leaf always does; a composite reaches through its first node, so
    /// every composite along that chain must be non-empty.
    pub open spec fn input_settable(&self) -> bool
        decreases *self, 1int,
    {
        match self {
            TensorNode::Extern(_) => true,
            TensorNode::Node(x) => x.tensor_graph.0@.len() > 0 && (if spec_is_input(
                x.tensor_graph.0@[0],
            ) {
                x.tensor_graph.0@[0].output_settable()
            } else {
                x.tensor_graph.0@[0].input_settable()
            }),
        }
    }

    /// The same for the output side, reached through the last node.
    pub open spec fn output_settable(&self) -> bool
        decreases *self, 0int,
    {
        match self {
            TensorNode::Extern(_) => true,
            TensorNode::Node(x) => x.tensor_graph.0@.len() > 0
                && x.tensor_graph.0@[x.tensor_graph.0@.len() - 1].output_settable(),
        }
    }

    fn can_set_input(&self) -> (r: bool)
        ensures
            r == self.input_settable(),
        decreases *self, 1int,
    {
        match self {
            TensorNode::Extern(_) => true,
            TensorNode::Node(node) => {
                if node.tensor_graph.0.len() == 0 {
                    return false;
                }
                let first = &node.tensor_graph.0[0];
                if first.is_input() {
                    first.can_set_output()
                } else {
                    first.can_set_input()
                }
            },
        }
    }

    fn can_set_output(&self) -> (r: bool)
        ensures
            r == self.output_settable(),
        decreases *self, 0int,
    {
        match self {
            TensorNode::Extern(_) => true,
            TensorNode::Node(node) => {
                let n = node.tensor_graph.0.len();
                if n == 0 {
                    return false;
                }
                node.tensor_graph.0[n - 1].can_set_output()
            },
        }
    }

    /// Replaces the input shape table this node exposes: a leaf takes it
    /// as its declared input shapes; a composite hands it to the node
    /// that its effective input shapes come from. Succeeds exactly when a
    /// slot is reachable; a refused node is left exactly as it was.
    pub fn set_input_shapes(&mut self, s: Shapes) -> (r: Result<(), Error>)
        ensures
            match r {
                Ok(_) => {
                    &&& old(self).input_settable()
                    &&& !spec_dynamic(s) ==> node_input_shapes(*final(self)) == Some(s)
                    &&& spec_is_input(*final(self)) == spec_is_input(*old(self))
                },
                Err(e) => {
                    &&& !old(self).input_settable()
                    &&& *final(self) == *old(self)
                    &&& e matches Error::GenericShapes
                },
            },
            (*final(self)).node_data().id == old(self).node_data().id,
            (*final(self)).node_data().name == old(self).node_data().name,
            (*final(self)).node_data().input == old(self).node_data().input,
            (*final(self)).node_data().output == old(self).node_data().output,
        decreases *old(self),
    {
        if !self.can_set_input() {
            return Err(Error::GenericShapes);
        }
        match self {
            TensorNode::Extern(node) => {
                node.input = Some(s);
                Ok(())
            },
            TensorNode::Node(node) => {
                let mut first = node.tensor_graph.0.remove(0);
                let res = if first.is_input() {
                    first.set_output_shapes_plain(s)
                } else {
                    first.set_input_shapes(s)
                };
                node.tensor_graph.0.insert(0, first);
                match res {
                    Ok(_) => Ok(()),
                    Err(e) => {
                        proof {
                            assert(false);
                        }
                        Err(e)
                    },
                }
            },
        }
    }

    /// Replaces the output shape table of a leaf, or of the last node of
    /// a composite. The table then is what the node exposes, as long as
    /// it is not the dynamic pass-through marker. Succeeds exactly when a
    /// slot is reachable; a refused node is left exactly as it was.
    pub fn set_output_shapes_plain(&mut self, s: Shapes) -> (r: Result<(), Error>)
        ensures
            match r {
                Ok(_) => {
                    &&& old(self).output_settable()
                    &&& !spec_dynamic(s) ==> node_output_shapes(*final(self)) == Some(s)
                    &&& spec_is_input(*final(self)) == spec_is_input(*old(self))
                },
                Err(e) => {
                    &&& !old(self).output_settable()
                    &&& *final(self) == *old(self)
                    &&& e matches Error::GenericShapes
                },
            },
            (*final(self)).node_data().id == old(self).node_data().id,
            (*final(self)).node_data().name == old(self).node_data().name,
            (*final(self)).node_data().input == old(self).node_data().input,
            (*final(self)).node_data().output == old(self).node_data().output,
        decreases *old(self),
    {
        if !self.can_set_output() {
            return Err(Error::GenericShapes);
        }
        match self {
            TensorNode::Extern(node) => {
                node.output = Some(s);
                Ok(())
            },
            TensorNode::Node(node) => {
                let n = node.tensor_graph.0.len();
                let mut last = node.tensor_graph.0.remove(n - 1);
                let res = last.set_output_shapes_plain(s);
                node.tensor_graph.0.insert(n - 1, last);
                proof {
                    if res is Ok && !spec_dynamic(s) {
                        assert(node.tensor_graph.0@[n - 1] == last);
                        assert(node_output_shapes(node.tensor_graph.0@[n - 1]) == Some(s));
                        assert(scan_output_shapes(node.tensor_graph.0@, n as nat) == Some(s));
                    }
                }
                match res {
                    Ok(_) => Ok(()),
                    Err(e) => {
                        proof {
                            assert(false);
                        }
                        Err(e)
                    },
                }
            },
        }
    }
}

/// Law: a safe duplicate exposes the very same shapes as its source —
/// similar nodes answer every input- and output-shape question alike, so
/// what is read off a clone is what the cached template holds, while the
/// two share no state that a later mutation could leak through.
pub proof fn lemma_similar_shapes(a: TensorNode, b: TensorNode)
    requires
        node_similar(a, b),
    ensures
        shapes_similar(node_input_shapes(a), node_input_shapes(b)),
        shapes_similar(node_output_shapes(a), node_output_shapes(b)),
    decreases a, 4int, 0int,
{
    match (a, b) {
        (TensorNode::Extern(_), TensorNode::Extern(_)) => {},
        (TensorNode::Node(x), TensorNode::Node(y)) => {
            assert(decreases_to!(a => a->Node_0));
            assert(a->Node_0 == x);
            assert(decreases_to!(x => x.tensor_graph));
            lemma_similar_graph_shapes(x.tensor_graph, y.tensor_graph);
        },
        _ => {},
    }
}

proof fn lemma_similar_graph_shapes(a: TensorGraph, b: TensorGraph)
    requires
        graph_similar(a, b),
    ensures
        shapes_similar(graph_input_shapes(a), graph_input_shapes(b)),
        shapes_similar(graph_output_shapes(a), graph_output_shapes(b)),
    decreases a, 3int, 0int,
{
    if a.0@.len() == 0 {
    } else {
        assert(decreases_to!(a => a.0));
        assert(decreases_to!(a.0 => a.0@));
        assert(a.0@[0] == a.0@[0]);
        assert(nodes_similar_at(a.0@, b.0@, 0));
        lemma_similar_seq_shapes(a.0@, b.0@, 0);
        assert(spec_is_input(a.0@[0]) == spec_is_input(b.0@[0]));
        lemma_similar_scan(a.0@, b.0@, a.0@.len() as nat);
    }
}

proof fn lemma_similar_seq_shapes(a: Seq<TensorNode>, b: Seq<TensorNode>, i: int)
    requires
        0 <= i < a.len(),
        0 <= i < b.len(),
        nodes_similar_at(a, b, i),
    ensures
        shapes_similar(node_input_shapes(a[i]), node_input_shapes(b[i])),
        shapes_similar(node_output_shapes(a[i]), node_output_shapes(b[i])),
        spec_is_input(a[i]) == spec_is_input(b[i]),
    decreases a, 1int, 0int,
{
    match (a[i], b[i]) {
        (TensorNode::Extern(_), TensorNode::Extern(_)) => {},
        (TensorNode::Node(x), TensorNode::Node(y)) => {
            assert(decreases_to!(a => a[i]));
            assert(decreases_to!(a[i] => a[i]->Node_0));
            assert(a[i]->Node_0 == x);
            assert(decreases_to!(x => x.tensor_graph));
            lemma_similar_graph_shapes(x.tensor_graph, y.tensor_graph);
        },
        _ => {},
    }
}

proof fn lemma_similar_scan(a: Seq<TensorNode>, b: Seq<TensorNode>, j: nat)
    requires
        a.len() == b.len(),
        forall|i: int| #![trigger a[i]] 0 <= i < a.len() ==> nodes_similar_at(a, b, i),
        j <= a.len(),
    ensures
        shapes_similar(scan_output_shapes(a, j), scan_output_shapes(b, j)),
    decreases a, 2int, j,
{
    if a.len() == 0 {
    } else if j == 0 {
        // mentioning the element lets the pairwise-similarity fact fire
        assert(a[a.len() - 1] == a[a.len() - 1]);
        lemma_similar_seq_shapes(a, b, a.len() - 1);
    } else {
        assert(a[j - 1] == a[j - 1]);
        lemma_similar_seq_shapes(a, b, j - 1);
        match (node_output_shapes(a[j - 1]), node_output_shapes(b[j - 1])) {
            (Some(sa), Some(sb)) => {
                lemma_similar_dynamic(sa, sb);
                if !spec_dynamic(sa) {
                } else {
                    lemma_similar_scan(a, b, (j - 1) as nat);
                }
            },
            _ => {
                lemma_similar_scan(a, b, (j - 1) as nat);
            },
        }
    }
}

/// Tables with the same ports and the same answers agree on being the
/// dynamic pass-through marker.
proof fn lemma_similar_dynamic(a: Shapes, b: Shapes)
    requires
        a.0.key_seq() == b.0.key_seq(),
        a.same_view(&b),
    ensures
        spec_dynamic(a) == spec_dynamic(b),
{
    assert(a.spec_dims("x"@) == b.spec_dims("x"@));
}

/// Whether a shape table is the dynamic single-port marker.
pub fn shapes_is_dynamic(s: &Shapes) -> (r: bool)
    ensures
        r == spec_dynamic(*s),
{
    if s.0.len() != 1 {
        return false;
    }
    let key = s.0.key_at(0);
    let mut is_x = false;
    proof {
        use_type_invariant(&s.0);
        s.0.lemma_at_get(0);
    }
    if key.as_str().unicode_len() == 1 {
        if key.as_str().get_char(0) == 'x' {
            is_x = true;
        }
    }
    proof {
        reveal_strlit("x");
    }
    if !is_x {
        proof {
            assert(key@ != "x"@);
            if s.0.contains_key("x"@) {
                let j = s.0.index_of("x"@);
                assert(0 <= j < s.0.spec_len() && s.0.spec_key_at(j) == "x"@);
                assert(j == 0);
            }
        }
        return false;
    }
    proof {
        assert(key@ =~= "x"@);
    }
    match s.0.val_at(0) {
        Some(_) => false,
        None => true,
    }
}

} // verus!
