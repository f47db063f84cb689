//! Top-level program assembly: a program template's variable table is
//! split into node bindings and plain arguments, the declared link chains
//! are unified, and every bound node is lowered into the final program.

use vstd::prelude::*;

use crate::cache::NodeRoot;
use crate::error::Error;
use crate::seed::Seed;
use crate::strmap::StrMap;
use crate::tensor::{data_similar, Code, IRData, TensorNode};
use crate::value::{ExternNodeType, LetNodeType, LetType};
use crate::vars::{lemma_cloned_variable, Variable};

verus! {

/// A snapshot of named argument variables.
#[derive(Debug)]
pub struct Vars(pub StrMap<Variable>);

/// The assembled program: the captured argument values, the pruned
/// argument table, the lowered nodes, and the auxiliary script bundle.
#[derive(Debug)]
pub struct Program {
    pub env: Option<StrMap<String>>,
    pub graph: StrMap<Variable>,
    pub nodes: StrMap<Code>,
    pub scripts: StrMap<String>,
}

/// The reserved script-bundle key for the program's own script.
pub fn program_main_key() -> (r: String)
    ensures
        r@ == "__main__"@,
{
    proof {
        reveal_strlit("__main__");
    }
    let r = "__main__".to_owned();
    r
}

/// The declared kind of a stored template: a composite carries its own,
/// a leaf counts as an extern node of the default kind.
pub open spec fn spec_template_ty(n: TensorNode) -> LetNodeType {
    match n {
        TensorNode::Node(node) => node.ty,
        TensorNode::Extern(_) => LetNodeType::Extern(ExternNodeType::Default),
    }
}

/// A safe duplicate keeps the declared kind of its source.
pub proof fn lemma_similar_template_ty(a: TensorNode, b: TensorNode)
    requires
        crate::tensor::node_similar(a, b),
    ensures
        spec_template_ty(a) == spec_template_ty(b),
{
}

pub fn template_ty(n: &TensorNode) -> (r: LetNodeType)
    ensures
        r == spec_template_ty(*n),
{
    match n {
        TensorNode::Node(node) => node.ty,
        TensorNode::Extern(_) => LetNodeType::Extern(ExternNodeType::Default),
    }
}

/// The one-way compatibility rule for node kinds: the bound node's kind
/// must equal the declared one, except that a plain extern node is
/// accepted where a plain node is expected.
pub open spec fn ty_accepted(expected: LetNodeType, given: LetNodeType) -> bool {
    given == expected || (given == LetNodeType::Extern(ExternNodeType::Default) && expected
        == LetNodeType::Default)
}

/// Whether a variable binds a named node template rather than a plain
/// argument.
pub open spec fn is_node_binding(var: Variable) -> bool {
    var.ty matches Some(t) && t matches LetType::Node(nt) && nt is Some
}

/// The node name a binding's value carries, when it carries one.
pub open spec fn binding_value_name(var: Variable) -> Option<Seq<char>> {
    match var.value {
        Some(v) => v.spec_unwrap_node_name(),
        None => None,
    }
}

/// Whether a node-typed binding resolves against the built tier: its
/// value names a node, the template exists there, and the declared and
/// found kinds are accepted by the one-way rule.
pub open spec fn binding_resolves(built: StrMap<TensorNode>, var: Variable) -> bool {
    &&& binding_value_name(var) is Some
    &&& (built.spec_get(binding_value_name(var).unwrap()) matches Some(t) && (var.ty matches Some(
        t2,
    ) && (t2 matches LetType::Node(nt) && (nt matches Some(decl) && ty_accepted(
        decl,
        spec_template_ty(t),
    )))))
}

/// Which failure the first unresolved node binding reports: a missing or
/// non-name value, an unknown template, or a kind the rule refuses.
pub open spec fn resolution_error_ok(
    vars: StrMap<Variable>,
    built: StrMap<TensorNode>,
    j: int,
    e: Error,
) -> bool {
    let var = vars.spec_val_at(j);
    match binding_value_name(var) {
        None => e matches Error::EmptyValue { name, expected } && name@ == vars.spec_key_at(j)
            && (var.ty matches Some(t2) && expected == t2),
        Some(nm) => match built.spec_get(nm) {
            None => e matches Error::NoSuchNode { name } && name@ == nm,
            Some(t) => e matches Error::MismatchedNodeType { expected, given } && (var.ty
                matches Some(t2) && t2 == LetType::Node(Some(expected))) && given
                == spec_template_ty(t) && !ty_accepted(expected, given),
        },
    }
}

/// The name a lowered code unit carries.
pub open spec fn code_name(c: Code) -> Seq<char> {
    match c {
        Code::Node(n) => n.name@,
        Code::Extern(e) => e.name@,
    }
}

/// The resolved node held for a binding carries the name of the template
/// the binding's value names in the built tier.
pub open spec fn bound_node_ok(
    vars: StrMap<Variable>,
    built: StrMap<TensorNode>,
    k: Seq<char>,
    nd: TensorNode,
) -> bool {
    vars.spec_get(k) matches Some(var) && (binding_value_name(var) matches Some(nm) && (
    built.spec_get(nm) matches Some(t) && nd.spec_name() == t.spec_name()))
}

/// The lowered code held for a binding carries that template's name.
pub open spec fn lowered_binding_ok(
    vars: StrMap<Variable>,
    built: StrMap<TensorNode>,
    k: Seq<char>,
    c: Code,
) -> bool {
    vars.spec_get(k) matches Some(var) && (binding_value_name(var) matches Some(nm) && (
    built.spec_get(nm) matches Some(t) && code_name(c) == t.spec_name()))
}

/// Whether a name is a node-typed binding of the table.
pub open spec fn node_bound(vars: StrMap<Variable>, k: Seq<char>) -> bool {
    vars.spec_get(k) matches Some(var) && is_node_binding(var)
}

/// What the pruned argument table answers for a name: the variable, when
/// it is a plain argument; nothing, when it binds a node or is unknown.
pub open spec fn pruned_view(vars: StrMap<Variable>, k: Seq<char>) -> Option<Variable> {
    match vars.spec_get(k) {
        Some(var) => if is_node_binding(var) {
            None
        } else {
            Some(var)
        },
        None => None,
    }
}

/// A program template: the header with its argument table, plus the
/// declared link chains over node-typed variable names.
#[derive(Debug)]
pub struct ExecIR {
    pub data: IRData,
    pub links: Vec<Vec<String>>,
}

/// Deep view equality of link chains.
pub open spec fn links_sim(a: Seq<Vec<String>>, b: Seq<Vec<String>>) -> bool {
    &&& a.len() == b.len()
    &&& forall|i: int|
        #![trigger a[i]]
        0 <= i < a.len() ==> a[i]@.len() == b[i]@.len() && (forall|j: int|
            #![trigger a[i]@[j]]
            0 <= j < a[i]@.len() ==> a[i]@[j]@ == b[i]@[j]@)
}

impl ExecIR {
    /// A snapshot of the template's argument variables.
    pub fn args(&self) -> (r: Vars)
        ensures
            r.0.key_seq() == self.data.graph.variables.key_seq(),
            forall|k: Seq<char>| r.0.spec_get(k) == self.data.graph.variables.spec_get(k),
    {
        let vars = self.data.graph.variables.clone();
        proof {
            use_type_invariant(&self.data.graph.variables);
            use_type_invariant(&vars);
            assert forall|i: int|
                0 <= i < self.data.graph.variables.spec_len() implies
                self.data.graph.variables.spec_val_at(i) == vars.spec_val_at(i) by {
                lemma_cloned_variable(
                    self.data.graph.variables.spec_val_at(i),
                    vars.spec_val_at(i),
                );
            }
            self.data.graph.variables.lemma_equal_views(&vars);
        }
        Vars(vars)
    }

    /// A duplicate sharing nothing with this template. `minted` grows by
    /// the names of the variable handles freshly created for the copy.
    pub fn clone_safe(&self, seed: &mut Seed, minted: &mut Vec<String>) -> (r: Self)
        ensures
            data_similar(r.data, self.data),
            links_sim(r.links@, self.links@),
            final(minted)@.len() >= old(minted)@.len(),
            old(minted)@.is_prefix_of(final(minted)@),
    {
        let data = self.data.clone_safe(seed, minted);
        let links = clone_links(&self.links);
        ExecIR { data, links }
    }
}

/// Copies link chains name by name.
fn clone_links(v: &Vec<Vec<String>>) -> (r: Vec<Vec<String>>)
    ensures
        links_sim(v@, r@),
{
    let n = v.len();
    let mut r: Vec<Vec<String>> = Vec::new();
    let mut i: usize = 0;
    while i < n
        invariant
            n == v@.len(),
            i <= n,
            r@.len() == i,
            forall|a: int|
                #![trigger v@[a]]
                0 <= a < i ==> v@[a]@.len() == r@[a]@.len() && (forall|b: int|
                    #![trigger v@[a]@[b]]
                    0 <= b < v@[a]@.len() ==> v@[a]@[b]@ == r@[a]@[b]@),
        decreases n - i,
    {
        let chain = &v[i];
        let m = chain.len();
        let mut c: Vec<String> = Vec::new();
        let mut j: usize = 0;
        while j < m
            invariant
                m == chain@.len(),
                j <= m,
                c@.len() == j,
                forall|b: int| #![trigger chain@[b]] 0 <= b < j ==> chain@[b]@ == c@[b]@,
            decreases m - j,
        {
            c.push(chain[j].clone());
            j = j + 1;
        }
        r.push(c);
        proof {
            assert(v@[i as int]@ == chain@);
        }
        i = i + 1;
    }
    r
}

/// The names of every leaf code unit in a lowered tree; each names the
/// auxiliary script the program needs.
pub open spec fn code_extern_names(c: Code) -> Set<Seq<char>>
    decreases c, 0int,
{
    match c {
        Code::Extern(e) => Set::empty().insert(e.name@),
        Code::Node(n) => codes_extern_names(n.graph@),
    }
}

pub open spec fn codes_extern_names(s: Seq<Code>) -> Set<Seq<char>>
    decreases s, 1int,
{
    if s.len() == 0 {
        Set::empty()
    } else {
        codes_extern_names(s.drop_last()).union(code_extern_names(s.last()))
    }
}

/// A name on a stack stays on it as the stack grows.
proof fn lemma_stack_grows(a: Seq<String>, b: Seq<String>, nm: Seq<char>)
    requires
        crate::cache::stack_contains(a, nm),
        a.is_prefix_of(b),
    ensures
        crate::cache::stack_contains(b, nm),
{
    let i = choose|i: int| 0 <= i < a.len() && a[i]@ == nm;
    assert(b[i] == a.subrange(0, a.len() as int)[i]);
    assert(b[i]@ == nm);
}

/// Collects the names of every leaf code unit in a lowered tree; each
/// names the auxiliary script it needs.
#[verifier::loop_isolation(false)]
fn collect_extern_names(code: &Code, acc: &mut Vec<String>)
    ensures
        final(acc)@.len() >= old(acc)@.len(),
        old(acc)@.is_prefix_of(final(acc)@),
        forall|nm: Seq<char>| code_extern_names(*code).contains(nm) ==> #[trigger] crate::cache::stack_contains(
            final(acc)@,
            nm,
        ),
    decreases *code,
{
    match code {
        Code::Extern(e) => {
            acc.push(e.name.clone());
            proof {
                assert(acc@[acc@.len() - 1]@ == e.name@);
                assert(old(acc)@ =~= acc@.subrange(0, old(acc)@.len() as int));
            }
        },
        Code::Node(n) => {
            let m = n.graph.len();
            let mut i: usize = 0;
            while i < m
                invariant
                    m == n.graph@.len(),
                    i <= m,
                    acc@.len() >= old(acc)@.len(),
                    old(acc)@.is_prefix_of(acc@),
                    forall|nm: Seq<char>|
                        codes_extern_names(n.graph@.take(i as int)).contains(nm)
                            ==> #[trigger] crate::cache::stack_contains(acc@, nm),
                decreases m - i,
            {
                proof {
                    assert(decreases_to!(*code => code->Node_0));
                    assert(code->Node_0 == *n);
                    assert(decreases_to!(*n => n.graph));
                    assert(decreases_to!(n.graph => n.graph@));
                    assert(decreases_to!(n.graph@ => n.graph@[i as int]));
                    assert(decreases_to!(*code => n.graph@[i as int]));
                }
                let ghost acc_pre = acc@;
                collect_extern_names(&n.graph[i], acc);
                proof {
                    assert(old(acc)@.is_prefix_of(acc@)) by {
                        assert(old(acc)@ =~= acc@.subrange(0, old(acc)@.len() as int));
                    }
                    assert(n.graph@.take(i + 1).drop_last() =~= n.graph@.take(i as int));
                    assert(n.graph@.take(i + 1).last() == n.graph@[i as int]);
                    assert forall|nm: Seq<char>|
                        codes_extern_names(n.graph@.take(i + 1)).contains(nm)
                            implies #[trigger] crate::cache::stack_contains(acc@, nm) by {
                        if codes_extern_names(n.graph@.take(i as int)).contains(nm) {
                            lemma_stack_grows(acc_pre, acc@, nm);
                        }
                    }
                }
                i = i + 1;
            }
            proof {
                assert(n.graph@.take(m as int) =~= n.graph@);
            }
        },
    }
}

impl ExecIR {
    /// Assembles the final program: node-typed variables are resolved
    /// through the cache and checked against their declared kinds, the
    /// declared link chains are unified pairwise, every resolved node is
    /// lowered, and the auxiliary scripts are bundled with the program's
    /// own script under the reserved key.
    #[verifier::loop_isolation(false)]
    pub fn build(self, root: &mut NodeRoot) -> (r: Result<Program, Error>)
        ensures
            r matches Ok(p) ==> {
                &&& p.env is None
                &&& p.scripts.spec_get("__main__"@) is Some
                &&& forall|k: Seq<char>|
                    #![trigger p.graph.spec_get(k)]
                    p.graph.spec_get(k) == pruned_view(self.data.graph.variables, k)
                &&& forall|k: Seq<char>|
                    #![trigger p.nodes.contains_key(k)]
                    p.nodes.contains_key(k) <==> node_bound(self.data.graph.variables, k)
                &&& forall|j: int|
                    #![trigger self.data.graph.variables.spec_val_at(j)]
                    (0 <= j < self.data.graph.variables.spec_len() && is_node_binding(
                        self.data.graph.variables.spec_val_at(j),
                    )) ==> binding_resolves(
                        old(root).cache.spec_built(),
                        self.data.graph.variables.spec_val_at(j),
                    )
                &&& forall|k: Seq<char>, nm: Seq<char>|
                    #![trigger p.nodes.spec_get(k), p.scripts.spec_get(nm)]
                    (p.nodes.spec_get(k) matches Some(c) && code_extern_names(c).contains(nm))
                        ==> p.scripts.spec_get(nm) is Some
                &&& forall|k: Seq<char>|
                    #![trigger p.nodes.spec_get(k)]
                    p.nodes.spec_get(k) matches Some(c) ==> lowered_binding_ok(
                        self.data.graph.variables,
                        old(root).cache.spec_built(),
                        k,
                        c,
                    )
            },
            r matches Err(e) ==> (e matches Error::EmptyValue { .. } || e
                matches Error::NoSuchNode { .. } || e matches Error::MismatchedNodeType { .. } || e
                matches Error::GenericShapes || e matches Error::MismatchedShapeKeys { .. } || e
                matches Error::MismatchedShapes { .. } || e matches Error::DifferentValues { .. }
                || e matches Error::NoSuchExtern { .. } || e
                matches Error::RepeatNotSupported { .. }),
            r matches Err(e) ==> forall|j: int|
                #![trigger self.data.graph.variables.spec_val_at(j)]
                (0 <= j < self.data.graph.variables.spec_len() && (forall|j2: int|
                    (0 <= j2 < j && is_node_binding(
                        #[trigger] self.data.graph.variables.spec_val_at(j2),
                    )) ==> binding_resolves(
                        old(root).cache.spec_built(),
                        self.data.graph.variables.spec_val_at(j2),
                    )) && is_node_binding(self.data.graph.variables.spec_val_at(j))
                    && !binding_resolves(
                    old(root).cache.spec_built(),
                    self.data.graph.variables.spec_val_at(j),
                )) ==> resolution_error_ok(
                    self.data.graph.variables,
                    old(root).cache.spec_built(),
                    j,
                    e,
                ),
    {
        let ExecIR { data, links } = self;
        let IRData { id: _, name, graph, input: _, output: _ } = data;
        let vars = graph.variables;
        let ghost built0 = root.cache.spec_built();
        proof {
            use_type_invariant(&vars);
        }
        // partition the variable table into node bindings and arguments
        let mut pruned: StrMap<Variable> = StrMap::new();
        let mut nodes: StrMap<TensorNode> = StrMap::new();
        proof {
            vars.lemma_keys_unique();
        }
        let n = vars.len();
        let mut i: usize = 0;
        while i < n
            invariant
                n == vars.spec_len(),
                i <= n,
                forall|k: Seq<char>|
                    #![trigger pruned.contains_key(k)]
                    pruned.contains_key(k) ==> vars.contains_key(k) && 0 <= vars.index_of(k) < i,
                forall|k: Seq<char>|
                    #![trigger nodes.contains_key(k)]
                    nodes.contains_key(k) ==> vars.contains_key(k) && 0 <= vars.index_of(k) < i,
                forall|j: int|
                    #![trigger vars.spec_key_at(j)]
                    0 <= j < i ==> pruned.spec_get(vars.spec_key_at(j)) == pruned_view(
                        vars,
                        vars.spec_key_at(j),
                    ) && (nodes.contains_key(vars.spec_key_at(j)) <==> node_bound(
                        vars,
                        vars.spec_key_at(j),
                    )),
                root.cache == old(root).cache,
                forall|j: int|
                    #![trigger vars.spec_val_at(j)]
                    (0 <= j < i && is_node_binding(vars.spec_val_at(j))) ==> binding_resolves(
                        built0,
                        vars.spec_val_at(j),
                    ),
                forall|k: Seq<char>|
                    #![trigger nodes.spec_get(k)]
                    nodes.spec_get(k) matches Some(nd) ==> bound_node_ok(vars, built0, k, nd),
            decreases n - i,
        {
            proof {
                vars.lemma_at_get(i as int);
            }
            let var = vars.val_at(i).clone();
            let vname = vars.key_at(i).clone();
            let ghost kv = vname@;
            let ghost varv = var;
            let is_node_binding = match var.ty {
                Some(LetType::Node(Some(_))) => true,
                _ => false,
            };
            if is_node_binding {
                let nty = match var.ty {
                    Some(LetType::Node(Some(t))) => t,
                    _ => LetNodeType::Default,
                };
                let node_name: String = match &var.value {
                    Some(v) => match v.unwrap_node_name() {
                        Some(s) => s.clone(),
                        None => {
                            return Err(
                                Error::EmptyValue {
                                    name: vname,
                                    expected: LetType::Node(Some(nty)),
                                },
                            );
                        },
                    },
                    None => {
                        return Err(
                            Error::EmptyValue { name: vname, expected: LetType::Node(Some(nty)) },
                        );
                    },
                };
                let node = match root.get_built(&node_name) {
                    Some(x) => x,
                    None => {
                        return Err(Error::NoSuchNode { name: node_name });
                    },
                };
                let given = template_ty(&node);
                if !ty_accepted_exec(nty, given) {
                    return Err(Error::MismatchedNodeType { expected: nty, given });
                }
                nodes.insert(vname, node);
                proof {
                    assert(pruned.spec_get(kv) is None) by {
                        if pruned.contains_key(kv) {
                            assert(vars.index_of(kv) < i);
                            assert(vars.index_of(kv) == i);
                        }
                    }
                    assert(node_bound(vars, kv));
                    assert forall|j: int|
                        #![trigger vars.spec_key_at(j)]
                        0 <= j < i + 1 implies pruned.spec_get(vars.spec_key_at(j)) == pruned_view(
                        vars,
                        vars.spec_key_at(j),
                    ) && (nodes.contains_key(vars.spec_key_at(j)) <==> node_bound(
                        vars,
                        vars.spec_key_at(j),
                    )) by {
                        if j == i {
                            assert(vars.spec_key_at(j) == kv);
                        } else {
                            assert(vars.spec_key_at(j) != kv);
                        }
                    }
                }
            } else {
                pruned.insert(vname, var);
                proof {
                    assert(pruned.spec_get(kv) == Some(varv));
                    assert(nodes.contains_key(kv) == false) by {
                        if nodes.contains_key(kv) {
                            assert(vars.index_of(kv) < i);
                            assert(vars.index_of(kv) == i);
                        }
                    }
                    assert(!node_bound(vars, kv));
                    assert forall|j: int|
                        #![trigger vars.spec_key_at(j)]
                        0 <= j < i + 1 implies pruned.spec_get(vars.spec_key_at(j)) == pruned_view(
                        vars,
                        vars.spec_key_at(j),
                    ) && (nodes.contains_key(vars.spec_key_at(j)) <==> node_bound(
                        vars,
                        vars.spec_key_at(j),
                    )) by {
                        if j < i {
                            assert(vars.spec_key_at(j) != kv);
                        } else {
                            assert(vars.spec_key_at(j) == kv);
                        }
                    }
                }
            }
            i = i + 1;
        }
        proof {
            assert forall|k: Seq<char>|
                #![trigger pruned.spec_get(k)]
                pruned.spec_get(k) == pruned_view(vars, k) by {
                if vars.contains_key(k) {
                    let j = vars.index_of(k);
                    assert(0 <= j < vars.spec_len() && vars.spec_key_at(j) == k);
                } else {
                    if pruned.contains_key(k) {
                        assert(vars.contains_key(k));
                    }
                }
            }
        }
        proof {
            assert forall|k: Seq<char>|
                #![trigger nodes.contains_key(k)]
                nodes.contains_key(k) <==> node_bound(vars, k) by {
                if vars.contains_key(k) {
                    let j = vars.index_of(k);
                    assert(0 <= j < vars.spec_len() && vars.spec_key_at(j) == k);
                } else {
                    if nodes.contains_key(k) {
                        assert(vars.contains_key(k));
                    }
                }
            }
        }
        // unify the shapes along every declared chain
        let nlinks = links.len();
        let mut li: usize = 0;
        while li < nlinks
            invariant
                nlinks == links@.len(),
                li <= nlinks,
                forall|k: Seq<char>|
                    #![trigger nodes.contains_key(k)]
                    nodes.contains_key(k) <==> node_bound(vars, k),
                forall|k: Seq<char>|
                    #![trigger nodes.spec_get(k)]
                    nodes.spec_get(k) matches Some(nd) ==> bound_node_ok(vars, built0, k, nd),
            decreases nlinks - li,
        {
            let chain = &links[li];
            let clen = chain.len();
            if clen >= 2 {
                let mut j: usize = 1;
                while j < clen
                    invariant
                        clen == chain@.len(),
                        1 <= j <= clen,
                        forall|k: Seq<char>|
                            #![trigger nodes.contains_key(k)]
                            nodes.contains_key(k) <==> node_bound(vars, k),
                        forall|k: Seq<char>|
                            #![trigger nodes.spec_get(k)]
                            nodes.spec_get(k) matches Some(nd) ==> bound_node_ok(
                                vars,
                                built0,
                                k,
                                nd,
                            ),
                    decreases clen - j,
                {
                    let last_shapes: crate::graph::Shapes = match nodes.get(&chain[j - 1]) {
                        Some(node) => match node.get_output_shapes() {
                            Some(sh) => sh.clone(),
                            None => {
                                return Err(Error::GenericShapes);
                            },
                        },
                        None => {
                            return Err(Error::NoSuchNode { name: chain[j - 1].clone() });
                        },
                    };
                    let new_shapes: crate::graph::Shapes = match nodes.get(&chain[j]) {
                        Some(node) => match node.get_input_shapes() {
                            Some(sh) => sh.clone(),
                            None => {
                                return Err(Error::GenericShapes);
                            },
                        },
                        None => {
                            return Err(Error::NoSuchNode { name: chain[j].clone() });
                        },
                    };
                    let mut a = last_shapes;
                    let mut b = new_shapes;
                    match crate::link::link_shapes(&mut a, &mut b) {
                        Ok(_) => {},
                        Err(e) => {
                            return Err(e);
                        },
                    }
                    // both sides observe the resolved shapes: the merged
                    // tables go back onto the nodes being lowered
                    match nodes.remove(&chain[j - 1]) {
                        Some(mut prev_node) => {
                            match prev_node.set_output_shapes_plain(a) {
                                Ok(_) => {},
                                Err(e) => {
                                    return Err(e);
                                },
                            }
                            nodes.insert(chain[j - 1].clone(), prev_node);
                        },
                        None => {
                            return Err(Error::NoSuchNode { name: chain[j - 1].clone() });
                        },
                    }
                    match nodes.remove(&chain[j]) {
                        Some(mut cur_node) => {
                            match cur_node.set_input_shapes(b) {
                                Ok(_) => {},
                                Err(e) => {
                                    return Err(e);
                                },
                            }
                            nodes.insert(chain[j].clone(), cur_node);
                        },
                        None => {
                            return Err(Error::NoSuchNode { name: chain[j].clone() });
                        },
                    }
                    j = j + 1;
                }
            }
            li = li + 1;
        }
        // lower every resolved node
        let ghost nodes0 = nodes;
        let keys = nodes.keys();
        proof {
            use_type_invariant(&nodes);
            nodes.lemma_keys_unique();
            assert forall|j: int| #![trigger keys@[j]] 0 <= j < keys@.len() implies
                nodes0.contains_key(keys@[j]@) by {
                assert(nodes0.spec_key_at(j) == keys@[j]@);
            }
            assert forall|a: int, b: int|
                0 <= a < b < keys@.len() implies keys@[a]@ != keys@[b]@ by {
                assert(keys@[a]@ == nodes0.spec_key_at(a));
                assert(keys@[b]@ == nodes0.spec_key_at(b));
            }
        }
        let mut built: StrMap<Code> = StrMap::new();
        let nk = keys.len();
        let mut i: usize = 0;
        while i < nk
            invariant
                nk == keys@.len(),
                i <= nk,
                forall|a: int, b: int| 0 <= a < b < nk ==> keys@[a]@ != keys@[b]@,
                forall|j: int| #![trigger keys@[j]] i <= j < nk ==> nodes.contains_key(keys@[j]@),
                forall|j: int| #![trigger keys@[j]] 0 <= j < i ==> built.contains_key(keys@[j]@),
                forall|k: Seq<char>|
                    #![trigger built.contains_key(k)]
                    built.contains_key(k) ==> nodes0.contains_key(k),
                forall|k: Seq<char>|
                    #![trigger nodes.spec_get(k)]
                    nodes.spec_get(k) matches Some(nd) ==> bound_node_ok(vars, built0, k, nd),
                forall|k: Seq<char>|
                    #![trigger built.spec_get(k)]
                    built.spec_get(k) matches Some(c) ==> lowered_binding_ok(vars, built0, k, c),
            decreases nk - i,
        {
            let k = keys[i].clone();
            match nodes.remove(&k) {
                Some(node) => {
                    let code = match node.build() {
                        Ok(c) => c,
                        Err(e) => {
                            return Err(e);
                        },
                    };
                    built.insert(k, code);
                    proof {
                        assert(nodes0.contains_key(keys@[i as int]@));
                    }
                },
                None => {
                    proof {
                        assert(false);
                    }
                },
            }
            i = i + 1;
        }
        proof {
            assert forall|k: Seq<char>|
                #![trigger built.contains_key(k)]
                built.contains_key(k) <==> node_bound(vars, k) by {
                if nodes0.contains_key(k) {
                    let j = nodes0.index_of(k);
                    assert(0 <= j < nodes0.spec_len() && nodes0.spec_key_at(j) == k);
                    assert(keys@[j]@ == k);
                }
            }
        }
        // gather the scripts the lowered nodes rely on
        let mut extern_names: Vec<String> = Vec::new();
        let bn = built.len();
        let mut i: usize = 0;
        while i < bn
            invariant
                bn == built.spec_len(),
                i <= bn,
                forall|ii: int, nm: Seq<char>|
                    (0 <= ii < i && code_extern_names(#[trigger] built.spec_val_at(ii)).contains(
                        nm,
                    )) ==> #[trigger] crate::cache::stack_contains(extern_names@, nm),
            decreases bn - i,
        {
            let ghost names_pre = extern_names@;
            collect_extern_names(built.val_at(i), &mut extern_names);
            proof {
                assert forall|ii: int, nm: Seq<char>|
                    (0 <= ii < i + 1 && code_extern_names(
                        #[trigger] built.spec_val_at(ii),
                    ).contains(nm)) implies #[trigger] crate::cache::stack_contains(
                    extern_names@,
                    nm,
                ) by {
                    if ii < i {
                        lemma_stack_grows(names_pre, extern_names@, nm);
                    }
                }
            }
            i = i + 1;
        }
        let mut scripts: StrMap<String> = StrMap::new();
        let en = extern_names.len();
        let mut i: usize = 0;
        while i < en
            invariant
                en == extern_names@.len(),
                i <= en,
                forall|j: int|
                    #![trigger extern_names@[j]]
                    0 <= j < i ==> scripts.spec_get(extern_names@[j]@) is Some,
            decreases en - i,
        {
            let nm = extern_names[i].clone();
            let script = match root.get_extern(&nm) {
                Ok(s) => s,
                Err(e) => {
                    return Err(e);
                },
            };
            let ghost nmv = nm@;
            scripts.insert(nm, script);
            proof {
                assert forall|j: int|
                    #![trigger extern_names@[j]]
                    0 <= j < i + 1 implies scripts.spec_get(extern_names@[j]@) is Some by {
                    if extern_names@[j]@ == nmv {
                    } else {
                    }
                }
            }
            i = i + 1;
        }
        // the program's own script goes under the reserved key
        let main_script = match root.get_extern(&name) {
            Ok(s) => s,
            Err(e) => {
                return Err(e);
            },
        };
        scripts.insert(program_main_key(), main_script);
        proof {
            reveal_strlit("__main__");
            use_type_invariant(&built);
            assert forall|k: Seq<char>, nm: Seq<char>|
                #![trigger built.spec_get(k), scripts.spec_get(nm)]
                (built.spec_get(k) matches Some(c) && code_extern_names(c).contains(nm)) implies
                scripts.spec_get(nm) is Some by {
                if built.contains_key(k) {
                    let idx = built.index_of(k);
                    built.lemma_at_get(idx);
                    assert(crate::cache::stack_contains(extern_names@, nm));
                    let j = choose|j: int|
                        0 <= j < extern_names@.len() && extern_names@[j]@ == nm;
                    assert(extern_names@[j] == extern_names@[j]);
                }
            }
        }
        Ok(Program { env: None, graph: pruned, nodes: built, scripts })
    }
}

fn ty_accepted_exec(expected: LetNodeType, given: LetNodeType) -> (r: bool)
    ensures
        r == ty_accepted(expected, given),
{
    if given == expected {
        true
    } else {
        given == LetNodeType::Extern(ExternNodeType::Default) && expected == LetNodeType::Default
    }
}

// --- the execution root ---------------------------------------------------

/// How the root directory looks on disk, as the surrounding program
/// found it.
#[derive(Clone, Copy, Debug, PartialEq, Eq, Structural)]
pub enum DirStatus {
    Present { is_dir: bool },
    Absent,
}

#[derive(Debug)]
pub struct ExecRootConfig {
    pub create_root_dir: Option<bool>,
}

impl Default for ExecRootConfig {
    fn default() -> (r: Self)
        ensures
            r.create_root_dir is None,
    {
        ExecRootConfig { create_root_dir: None }
    }
}

/// The top-level handle: the build root plus the captured environment.
#[derive(Debug)]
pub struct ExecRoot {
    pub node_root: NodeRoot,
    pub env: StrMap<String>,
}

/// Whether a root in this state, under this configuration, is usable.
/// Creating the directory is the surrounding program's work; here only
/// the decision is made.
pub open spec fn root_dir_accepted(config: ExecRootConfig, dir: DirStatus) -> bool {
    match dir {
        DirStatus::Present { is_dir } => is_dir,
        DirStatus::Absent => config.create_root_dir == Some(true),
    }
}

impl ExecRoot {
    /// The decision table over the directory state: a present directory
    /// passes, a present non-directory is refused, an absent one is
    /// created only when the configuration says so, and is otherwise
    /// refused; asking interactively is outside this library, so the
    /// undecided configuration refuses as well.
    pub fn assert_root_dir(config: &ExecRootConfig, dir: DirStatus, path: &String) -> (r: Result<
        bool,
        Error,
    >)
        ensures
            match r {
                Ok(create) => root_dir_accepted(*config, dir) && (create <==> dir
                    == DirStatus::Absent),
                Err(e) => {
                    &&& !root_dir_accepted(*config, dir)
                    &&& (dir matches DirStatus::Present { is_dir } && !is_dir ==> e
                        matches Error::NotDirectory { .. })
                    &&& (dir is Absent ==> e matches Error::NoSuchDirectory { .. })
                },
            },
    {
        match dir {
            DirStatus::Present { is_dir } => {
                if is_dir {
                    Ok(false)
                } else {
                    Err(Error::NotDirectory { path: path.clone() })
                }
            },
            DirStatus::Absent => match config.create_root_dir {
                Some(true) => Ok(true),
                Some(false) => match no_such_directory(path) {
                    Err(e) => Err(e),
                    Ok(_) => Err(Error::NoSuchDirectory { path: path.clone() }),
                },
                None => match Self::ask_to_create_root_dir(path) {
                    Err(e) => Err(e),
                    Ok(_) => Err(Error::NoSuchDirectory { path: path.clone() }),
                },
            },
        }
    }

    /// Without an interactive prompt the undecided case refuses.
    pub fn ask_to_create_root_dir(path: &String) -> (r: Result<(), Error>)
        ensures
            r matches Err(e) && e matches Error::NoSuchDirectory { .. },
    {
        no_such_directory(path)
    }

    /// A fresh root over a usable directory. The caller reports how the
    /// directory looked; when the decision is to create it, doing so —
    /// and loading any node files found under it — is the caller's work,
    /// through `add_path` on the cache.
    pub fn try_new(env: StrMap<String>, config: ExecRootConfig, dir: DirStatus, path: String) -> (r:
        Result<ExecRoot, Error>)
        ensures
            match r {
                Ok(root) => root_dir_accepted(config, dir) && root.env == env
                    && root.node_root.cache.spec_built().spec_len() == 0,
                Err(e) => {
                    &&& !root_dir_accepted(config, dir)
                    &&& (dir matches DirStatus::Present { is_dir } && !is_dir ==> e
                        matches Error::NotDirectory { .. })
                    &&& (dir is Absent ==> e matches Error::NoSuchDirectory { .. })
                },
            },
    {
        match Self::assert_root_dir(&config, dir, &path) {
            Ok(_) => Ok(ExecRoot { node_root: NodeRoot::new(), env }),
            Err(e) => Err(e),
        }
    }

    /// The program template registered under a name, duplicated, with a
    /// snapshot of its arguments.
    pub fn get(&mut self, name: &String) -> (r: Result<Args, Error>)
        ensures
            match r {
                Ok(a) => old(self).node_root.execs.spec_get(name@) matches Some(t)
                    && crate::tensor::data_similar(a.ir.data, t.data) && links_sim(
                    a.ir.links@,
                    t.links@,
                ) && (forall|k: Seq<char>|
                    a.args.0.spec_get(k) == t.data.graph.variables.spec_get(k)),
                Err(e) => old(self).node_root.execs.spec_get(name@) is None && (e
                    matches Error::NoSuchNode { name: n } && n@ == name@),
            },
    {
        let NodeRoot { seed, cache: _, extern_sources: _, execs } = &mut self.node_root;
        match execs.get(name) {
            Some(ir0) => {
                let mut minted: Vec<String> = Vec::new();
                let ir = ir0.clone_safe(seed, &mut minted);
                let args = ir.args();
                Ok(Args { ir, args })
            },
            None => Err(Error::NoSuchNode { name: name.clone() }),
        }
    }

    /// Stamps the captured environment onto a program.
    pub fn attach_env(&self, program: &mut Program)
        ensures
            final(program).env matches Some(e) && e.key_seq() == self.env.key_seq() && (forall|
                k: Seq<char>,
            | e.spec_get(k) == self.env.spec_get(k)),
            final(program).graph == old(program).graph,
            final(program).nodes == old(program).nodes,
            final(program).scripts == old(program).scripts,
    {
        let c = self.env.clone();
        proof {
            use_type_invariant(&self.env);
            use_type_invariant(&c);
            assert forall|i: int|
                0 <= i < self.env.spec_len() implies self.env.spec_val_at(i) == c.spec_val_at(
                i,
            ) by {
                lemma_cloned_string(self.env.spec_val_at(i), c.spec_val_at(i));
            }
            self.env.lemma_equal_views(&c);
        }
        program.env = Some(c);
    }
}

/// A cloned string equals its source.
proof fn lemma_cloned_string(a: String, b: String)
    requires
        vstd::pervasive::cloned::<String>(a, b),
    ensures
        a == b,
{
    if a != b {
        assert(call_ensures(<String as Clone>::clone, (&a,), b));
    }
}

/// A requested program together with its argument snapshot.
#[derive(Debug)]
pub struct Args {
    pub ir: ExecIR,
    pub args: Vars,
}

/// The refusal every missing root directory gets.
pub fn no_such_directory(path: &String) -> (r: Result<(), Error>)
    ensures
        r matches Err(e) && e matches Error::NoSuchDirectory { path: p } && p@ == path@,
{
    Err(Error::NoSuchDirectory { path: path.clone() })
}

} // verus!
