//! The composite IR node: a header, the graph of nodes it owns, and an
//! optional repeat count.

use vstd::prelude::*;

use crate::error::Error;
use crate::graph::Shapes;
use crate::seed::Seed;
use crate::tensor::{
    data_similar, graph_input_shapes, graph_output_shapes, graph_similar, node_code_ok, Code,
    IRData, NodeCode, TensorGraph,
};
use crate::value::{LetNodeType, Value};

verus! {

/// A composite node.
#[derive(Debug)]
pub struct NodeIR {
    pub data: IRData,
    pub tensor_graph: TensorGraph,
    pub repeat: Option<Value>,
    pub ty: LetNodeType,
}

/// What must hold of a composite for the build pass to lower it.
pub open spec fn nodeir_buildable(n: NodeIR) -> bool {
    &&& n.repeat is None
    &&& (n.data.input is Some || graph_input_shapes(n.tensor_graph) is Some)
    &&& (n.data.output is Some || graph_output_shapes(n.tensor_graph) is Some)
    &&& crate::tensor::graph_buildable(n.tensor_graph)
}

impl NodeIR {
    pub fn get_input_shapes<'a>(&'a self) -> (r: Option<&'a Shapes>)
        ensures
            match r {
                Some(s) => graph_input_shapes(self.tensor_graph) == Some(*s),
                None => graph_input_shapes(self.tensor_graph) is None,
            },
        decreases *self,
    {
        self.tensor_graph.get_input_shapes()
    }

    pub fn get_output_shapes<'a>(&'a self) -> (r: Option<&'a Shapes>)
        ensures
            match r {
                Some(s) => graph_output_shapes(self.tensor_graph) == Some(*s),
                None => graph_output_shapes(self.tensor_graph) is None,
            },
        decreases *self,
    {
        self.tensor_graph.get_output_shapes()
    }

    /// Lowers the composite: wiring that was never set defaults to one
    /// entry per boundary port, inputs at id 0 and outputs at id 1; a
    /// repeat count is refused rather than silently dropped; then the
    /// body is lowered node by node.
    pub fn build(self) -> (r: Result<NodeCode, Error>)
        ensures
            match r {
                Ok(c) => nodeir_buildable(self) && node_code_ok(self, c),
                Err(e) => {
                    &&& !nodeir_buildable(self)
                    &&& (e matches Error::RepeatNotSupported { .. } || e
                        matches Error::GenericShapes)
                    &&& (self.repeat is Some ==> e matches Error::RepeatNotSupported { .. })
                },
            },
        decreases self,
    {
        let NodeIR { data, tensor_graph, repeat, ty: _ } = self;
        let IRData { id: _, name, graph: _, input: data_input, output: data_output } = data;
        if repeat.is_some() {
            return Err(Error::RepeatNotSupported { name });
        }
        let input = match unwrap_outs(0, tensor_graph.get_input_shapes(), data_input) {
            Ok(o) => o,
            Err(e) => {
                return Err(e);
            },
        };
        let output = match unwrap_outs(1, tensor_graph.get_output_shapes(), data_output) {
            Ok(o) => o,
            Err(e) => {
                return Err(e);
            },
        };
        let codes = match tensor_graph.build() {
            Ok(cs) => cs,
            Err(e) => {
                return Err(e);
            },
        };
        Ok(NodeCode { name, input, output, graph: codes })
    }

    /// A duplicate sharing nothing with this node: the header first, then
    /// the nested graph, then the trailing fields, each minted fresh
    /// identities from the same seed.
    pub fn clone_safe(&self, seed: &mut Seed, minted: &mut Vec<String>) -> (r: Self)
        ensures
            data_similar(r.data, self.data),
            graph_similar(r.tensor_graph, self.tensor_graph),
            r.repeat == self.repeat,
            r.ty == self.ty,
            final(minted)@.len() >= old(minted)@.len(),
            old(minted)@.is_prefix_of(final(minted)@),
        decreases *self,
    {
        let data = self.data.clone_safe(seed, minted);
        let tensor_graph = self.tensor_graph.clone_safe(seed, minted);
        let repeat = match &self.repeat {
            Some(v) => Some(v.clone()),
            None => None,
        };
        NodeIR { data, tensor_graph, repeat, ty: self.ty }
    }
}

/// Explicit wiring is kept as given; absent wiring defaults to one entry
/// per port of the boundary shape table, pointing at the given id.
pub fn unwrap_outs(id: u64, shapes: Option<&Shapes>, outs: Option<crate::graph::Outs>) -> (r:
    Result<crate::graph::Outs, Error>)
    ensures
        match r {
            Ok(o) => match outs {
                Some(given) => o == given,
                None => shapes matches Some(s) && crate::graph::boundary_outs(o, *s, id),
            },
            Err(e) => outs is None && shapes is None && e matches Error::GenericShapes,
        },
{
    match outs {
        Some(given) => Ok(given),
        None => match shapes {
            Some(s) => Ok(s.to_outs(id)),
            None => Err(Error::GenericShapes),
        },
    }
}

} // verus!
