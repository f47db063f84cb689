//! Named variables and the per-node variable graph: the scope that keyword
//! arguments are resolved against and rebound on.

use vstd::prelude::*;

use crate::seed::Seed;
use crate::strmap::StrMap;
use crate::value::{Expr, LetType, Value};

verus! {

/// One named variable: an optional declared kind and an optional bound
/// value. A variable without a value stays symbolic.
#[derive(Debug, PartialEq)]
pub struct Variable {
    pub name: String,
    pub ty: Option<LetType>,
    pub value: Option<Value>,
}

impl Variable {
    pub fn with_name_value(name: String, value: Option<Value>) -> (r: Self)
        ensures
            r.name == name,
            r.ty is None,
            r.value == value,
    {
        Variable { name, ty: None, value }
    }
}

impl Clone for Variable {
    fn clone(&self) -> (r: Self)
        ensures
            r == *self,
    {
        Variable {
            name: self.name.clone(),
            ty: self.ty,
            value: match &self.value {
                Some(v) => Some(v.clone()),
                None => None,
            },
        }
    }
}

/// A cloned variable equals its source.
pub proof fn lemma_cloned_variable(a: Variable, b: Variable)
    requires
        vstd::pervasive::cloned::<Variable>(a, b),
    ensures
        a == b,
{
    if a != b {
        assert(call_ensures(<Variable as Clone>::clone, (&a,), b));
    }
}

/// The variable table of one node, with the identity the seed minted for
/// it. Values inside the node refer to these variables by name.
#[derive(Debug)]
pub struct Graph {
    pub id: u64,
    pub variables: StrMap<Variable>,
}

/// Substituting bound variables into a value, one level deep: a variable
/// whose name is bound in the table becomes its bound value; everything
/// else keeps its structure.
pub open spec fn spec_subst(vars: StrMap<Variable>, v: Value) -> Value
    decreases v,
{
    match v {
        Value::Variable(n) => match vars.spec_get(n@) {
            Some(var) => match var.value {
                Some(val) => val,
                None => v,
            },
            None => v,
        },
        Value::Expr(e) => Value::Expr(
            Box::new(
                Expr { op: e.op, lhs: spec_subst(vars, e.lhs), rhs: spec_subst(vars, e.rhs) },
            ),
        ),
        _ => v,
    }
}

impl Graph {
    /// Both tables bind every name alike.
    pub open spec fn same_vars(&self, other: &Graph) -> bool {
        forall|k: Seq<char>| self.variables.spec_get(k) == other.variables.spec_get(k)
    }

    /// An empty variable graph with a fresh id.
    pub fn new(seed: &mut Seed) -> (r: Graph)
        ensures
            r.id == old(seed).peek(),
            r.variables.spec_len() == 0,
    {
        let id = seed.generate();
        Graph { id, variables: StrMap::new() }
    }

    /// A graph holding a single named, bound variable.
    pub fn with_one_var(seed: &mut Seed, name: String, value: Option<Value>) -> (r: Graph)
        ensures
            r.id == old(seed).peek(),
            r.variables.spec_len() == 1,
            r.variables.spec_get(name@) matches Some(var) && var.name == name && var.value
                == value,
    {
        let id = seed.generate();
        let mut variables: StrMap<Variable> = StrMap::new();
        let var = Variable::with_name_value(name.clone(), value);
        variables.insert(name, var);
        Graph { id, variables }
    }

    /// Binds a variable under its name, replacing an old binding.
    pub fn bind(&mut self, var: Variable)
        ensures
            final(self).id == old(self).id,
            final(self).variables.spec_get(var.name@) == Some(var),
            forall|k: Seq<char>|
                k != var.name@ ==> final(self).variables.spec_get(k) == old(
                    self,
                ).variables.spec_get(k),
    {
        let name = var.name.clone();
        let mut vars = StrMap::new();
        core::mem::swap(&mut self.variables, &mut vars);
        vars.insert(name, var);
        core::mem::swap(&mut self.variables, &mut vars);
    }

    fn subst(&self, v: Value) -> (r: Value)
        ensures
            r == spec_subst(self.variables, v),
        decreases v,
    {
        match v {
            Value::Variable(n) => {
                match self.variables.get(&n) {
                    Some(var) => match &var.value {
                        Some(val) => val.clone(),
                        None => Value::Variable(n),
                    },
                    None => Value::Variable(n),
                }
            },
            Value::Expr(e) => {
                let ex = *e;
                let Expr { op, lhs, rhs } = ex;
                let l = self.subst(lhs);
                let r2 = self.subst(rhs);
                Value::Expr(Box::new(Expr { op, lhs: l, rhs: r2 }))
            },
            _ => v,
        }
    }

    /// Binds every variable of the table under its name, replacing old
    /// bindings of the same names.
    #[verifier::loop_isolation(false)]
    pub fn bind_all(&mut self, variables: &StrMap<Variable>)
        ensures
            final(self).id == old(self).id,
            forall|k: Seq<char>|
                #![trigger variables.contains_key(k)]
                variables.contains_key(k) ==> final(self).variables.spec_get(k)
                    == variables.spec_get(k),
            forall|k: Seq<char>|
                !variables.contains_key(k) ==> final(self).variables.spec_get(k) == old(
                    self,
                ).variables.spec_get(k),
    {
        proof {
            use_type_invariant(variables);
            variables.lemma_keys_unique();
        }
        let n = variables.len();
        let mut i: usize = 0;
        while i < n
            invariant
                n == variables.spec_len(),
                i <= n,
                self.id == old(self).id,
                forall|ii: int, jj: int|
                    0 <= ii < jj < variables.spec_len() ==> variables.spec_key_at(ii)
                        != variables.spec_key_at(jj),
                forall|j: int|
                    #![trigger variables.spec_key_at(j)]
                    0 <= j < i ==> self.variables.spec_get(variables.spec_key_at(j))
                        == variables.spec_get(variables.spec_key_at(j)),
                forall|k: Seq<char>|
                    !variables.contains_key(k) ==> self.variables.spec_get(k) == old(
                        self,
                    ).variables.spec_get(k),
            decreases n - i,
        {
            proof {
                use_type_invariant(variables);
                variables.lemma_at_get(i as int);
            }
            let var = variables.val_at(i).clone();
            let ghost vv = var;
            let name = variables.key_at(i).clone();
            let mut tmp = StrMap::new();
            core::mem::swap(&mut self.variables, &mut tmp);
            tmp.insert(name, var);
            core::mem::swap(&mut self.variables, &mut tmp);
            proof {
                assert(self.variables.spec_get(variables.spec_key_at(i as int)) == Some(vv));
                assert forall|j: int|
                    #![trigger variables.spec_key_at(j)]
                    0 <= j < i + 1 implies self.variables.spec_get(variables.spec_key_at(j))
                    == variables.spec_get(variables.spec_key_at(j)) by {
                    if j < i {
                        assert(variables.spec_key_at(j) != variables.spec_key_at(i as int));
                    }
                }
                assert forall|k: Seq<char>|
                    !variables.contains_key(k) implies self.variables.spec_get(k) == old(
                    self,
                ).variables.spec_get(k) by {
                    assert(k != variables.spec_key_at(i as int));
                }
            }
            i = i + 1;
        }
        proof {
            assert forall|k: Seq<char>|
                #![trigger variables.contains_key(k)]
                variables.contains_key(k) implies self.variables.spec_get(k)
                == variables.spec_get(k) by {
                let j = variables.index_of(k);
                assert(0 <= j < variables.spec_len() && variables.spec_key_at(j) == k);
            }
        }
    }

    /// Resolves a value against this scope's bindings; `None` stays `None`.
    pub fn replace_to(&self, v: Option<Value>) -> (r: Option<Value>)
        ensures
            match v {
                Some(x) => r == Some(spec_subst(self.variables, x)),
                None => r is None,
            },
    {
        match v {
            Some(x) => Some(self.subst(x)),
            None => None,
        }
    }
}

impl Clone for Graph {
    /// The copy has the same id and binds every name alike.
    fn clone(&self) -> (r: Self)
        ensures
            r.id == self.id,
            r.same_vars(self),
            r.variables.key_seq() == self.variables.key_seq(),
    {
        let variables = self.variables.clone();
        proof {
            use_type_invariant(&self.variables);
            use_type_invariant(&variables);
            assert forall|i: int|
                0 <= i < self.variables.spec_len() implies self.variables.spec_val_at(i)
                == variables.spec_val_at(i) by {
                lemma_cloned_variable(
                    self.variables.spec_val_at(i),
                    variables.spec_val_at(i),
                );
            }
            self.variables.lemma_equal_views(&variables);
        }
        Graph { id: self.id, variables }
    }
}

impl Graph {
    /// A copy with a freshly minted id; the identity is new, the bindings
    /// are the same. `minted` grows by the names of the variables the copy
    /// carries: the handles freshly created by this duplication.
    pub fn clone_safe(&self, seed: &mut Seed, minted: &mut Vec<String>) -> (r: Graph)
        ensures
            r.id == old(seed).peek(),
            r.same_vars(self),
            r.variables.key_seq() == self.variables.key_seq(),
            final(minted)@.len() == old(minted)@.len() + self.variables.spec_len(),
            old(minted)@.is_prefix_of(final(minted)@),
            forall|i: int|
                0 <= i < self.variables.spec_len() ==> final(minted)@[old(minted)@.len() + i]@
                    == self.variables.spec_key_at(i),
    {
        let id = seed.generate();
        let variables = self.variables.clone();
        proof {
            use_type_invariant(&self.variables);
            use_type_invariant(&variables);
            assert forall|i: int|
                0 <= i < self.variables.spec_len() implies self.variables.spec_val_at(i)
                == variables.spec_val_at(i) by {
                lemma_cloned_variable(
                    self.variables.spec_val_at(i),
                    variables.spec_val_at(i),
                );
            }
            self.variables.lemma_equal_views(&variables);
        }
        let mut names = self.variables.keys();
        minted.append(&mut names);
        Graph { id, variables }
    }
}

} // verus!
