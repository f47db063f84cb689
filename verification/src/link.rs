//! Shape linking: the unification step that makes a producer's output
//! table and a consumer's input table agree. Key sets must match exactly;
//! resolved shapes must fold to the same dimensions; a port that one side
//! leaves unsized takes the other side's resolved shape.

use vstd::prelude::*;

use crate::error::Error;
use crate::graph::{oshape_view, Shape, Shapes};
use crate::strmap::StrMap;
use crate::value::{dims_eq, lemma_veq_refl, lemma_veq_sym, values_unify, Value};

verus! {

/// The resolved dimensions a table gives a port: `None` both for a port
/// it does not list and for one it leaves unsized.
pub open spec fn dims_of(s: Shapes, k: Seq<char>) -> Option<Seq<Value>> {
    match s.spec_dims(k) {
        Some(Some(d)) => Some(d),
        _ => None,
    }
}

/// Two dimension lists unify: same rank, and each pair of dimensions
/// folds to the same value.
pub open spec fn dims_unify(x: Seq<Value>, y: Seq<Value>) -> bool {
    &&& x.len() == y.len()
    &&& forall|i: int| 0 <= i < x.len() ==> dims_eq(x[i], y[i])
}

/// Two optional dimension lists unify; a missing side never conflicts.
pub open spec fn slot_unify(x: Option<Seq<Value>>, y: Option<Seq<Value>>) -> bool {
    match (x, y) {
        (Some(a), Some(b)) => dims_unify(a, b),
        _ => true,
    }
}

/// What a port resolves to once two tables are linked: the first side's
/// shape where it has one, else whatever the second side has.
pub open spec fn merge_dims(x: Option<Seq<Value>>, y: Option<Seq<Value>>) -> Option<Seq<Value>> {
    if x is Some {
        x
    } else {
        y
    }
}

pub open spec fn linked_dims(x: Shapes, y: Shapes, k: Seq<char>) -> Option<Seq<Value>> {
    merge_dims(dims_of(x, k), dims_of(y, k))
}

/// Linking succeeds exactly when the port-name sets match and every port
/// both sides resolve folds to the same dimensions.
pub open spec fn link_ok(x: Shapes, y: Shapes) -> bool {
    &&& forall|k: Seq<char>| x.contains_port(k) <==> y.contains_port(k)
    &&& forall|k: Seq<char>| #![trigger dims_of(x, k)] slot_unify(dims_of(x, k), dims_of(y, k))
}

/// Whether every port of `x` is also a port of `y`.
fn ports_subset(x: &Shapes, y: &Shapes) -> (r: bool)
    ensures
        r == forall|k: Seq<char>| #![trigger x.contains_port(k)] x.contains_port(k)
            ==> y.contains_port(k),
{
    proof {
        use_type_invariant(&x.0);
    }
    let n = x.0.len();
    let mut i: usize = 0;
    while i < n
        invariant
            n == x.0.spec_len(),
            i <= n,
            forall|j: int| 0 <= j < i ==> y.0.contains_key(x.0.spec_key_at(j)),
        decreases n - i,
    {
        let k = x.0.key_at(i);
        if !y.0.contains(k) {
            proof {
                assert(x.contains_port(x.0.spec_key_at(i as int)));
            }
            return false;
        }
        i = i + 1;
    }
    proof {
        assert forall|k: Seq<char>| x.contains_port(k) implies y.contains_port(k) by {
            let j = x.0.index_of(k);
            assert(0 <= j < x.0.spec_len() && x.0.spec_key_at(j) == k);
        }
    }
    true
}

/// Whether the resolved shapes of the shared ports all unify.
#[verifier::loop_isolation(false)]
fn slots_unify(x: &Shapes, y: &Shapes) -> (r: Result<(), Error>)
    ensures
        match r {
            Ok(_) => forall|k: Seq<char>|
                #![trigger dims_of(*x, k)]
                slot_unify(dims_of(*x, k), dims_of(*y, k)),
            Err(e) => {
                &&& !(forall|k: Seq<char>|
                    #![trigger dims_of(*x, k)]
                    slot_unify(dims_of(*x, k), dims_of(*y, k)))
                &&& (e matches Error::MismatchedShapes { .. } || e matches Error::DifferentValues {
                    ..
                })
            },
        },
{
    proof {
        use_type_invariant(&x.0);
    }
    let n = x.0.len();
    let mut i: usize = 0;
    while i < n
        invariant
            n == x.0.spec_len(),
            i <= n,
            forall|j: int|
                #![trigger x.0.spec_key_at(j)]
                0 <= j < i ==> slot_unify(
                    dims_of(*x, x.0.spec_key_at(j)),
                    dims_of(*y, x.0.spec_key_at(j)),
                ),
        decreases n - i,
    {
        let k = x.0.key_at(i).clone();
        let ghost kv = k@;
        proof {
            use_type_invariant(&x.0);
            x.0.lemma_at_get(i as int);
        }
        let xv = x.0.val_at(i);
        if let Some(xs) = xv {
            match y.0.get(&k) {
                Some(yslot) => {
                    if let Some(ys) = yslot {
                        let xr = xs.0.len();
                        let yr = ys.0.len();
                        if xr != yr {
                            proof {
                                assert(dims_of(*x, kv) == Some(xs.0@));
                                assert(dims_of(*y, kv) == Some(ys.0@));
                            }
                            return Err(Error::MismatchedShapes { expected: xr, given: yr });
                        }
                        let mut d: usize = 0;
                        while d < xr
                            invariant
                                xr == xs.0@.len(),
                                xr == ys.0@.len(),
                                d <= xr,
                                forall|e: int| 0 <= e < d ==> dims_eq(xs.0@[e], ys.0@[e]),
                            decreases xr - d,
                        {
                            if !values_unify(&xs.0[d], &ys.0[d]) {
                                proof {
                                    assert(dims_of(*x, kv) == Some(xs.0@));
                                    assert(dims_of(*y, kv) == Some(ys.0@));
                                    assert(!dims_unify(xs.0@, ys.0@));
                                }
                                return Err(Error::DifferentValues {
                                    lhs: xs.0[d].clone(),
                                    rhs: ys.0[d].clone(),
                                });
                            }
                            d = d + 1;
                        }
                        proof {
                            assert(dims_unify(xs.0@, ys.0@));
                            assert(dims_of(*x, kv) == Some(xs.0@));
                            assert(dims_of(*y, kv) == Some(ys.0@));
                        }
                    } else {
                        proof {
                            assert(dims_of(*y, kv) is None);
                        }
                    }
                },
                None => {
                    proof {
                        assert(dims_of(*y, kv) is None);
                    }
                },
            }
        } else {
            proof {
                assert(dims_of(*x, kv) is None);
            }
        }
        i = i + 1;
    }
    proof {
        assert forall|k: Seq<char>|
            slot_unify(dims_of(*x, k), dims_of(*y, k)) by {
            if x.contains_port(k) {
                let j = x.0.index_of(k);
                assert(0 <= j < x.0.spec_len() && x.0.spec_key_at(j) == k);
            } else {
                assert(dims_of(*x, k) is None);
            }
        }
    }
    Ok(())
}

/// The table `x` would become when linked against `y`: `x`'s own keys, in
/// `x`'s order, with every unsized port taking `y`'s shape for it.
#[verifier::loop_isolation(false)]
fn merged_table(x: &Shapes, y: &Shapes) -> (r: StrMap<Option<Shape>>)
    ensures
        r.key_seq() == x.0.key_seq(),
        forall|k: Seq<char>|
            #![trigger r.spec_get(k)]
            r.contains_key(k) ==> (r.spec_get(k) matches Some(o) && oshape_view(o) == linked_dims(
                *x,
                *y,
                k,
            )),
{
    proof {
        use_type_invariant(&x.0);
        x.0.lemma_keys_unique();
    }
    let n = x.0.len();
    let mut m: StrMap<Option<Shape>> = StrMap::new();
    let mut i: usize = 0;
    while i < n
        invariant
            n == x.0.spec_len(),
            i <= n,
            m.key_seq() =~= x.0.key_seq().take(i as int),
            forall|ii: int, jj: int|
                0 <= ii < jj < x.0.spec_len() ==> x.0.spec_key_at(ii) != x.0.spec_key_at(jj),
            forall|j: int|
                #![trigger x.0.spec_key_at(j)]
                0 <= j < i ==> (m.spec_get(x.0.spec_key_at(j)) matches Some(o) && oshape_view(o)
                    == linked_dims(*x, *y, x.0.spec_key_at(j))),
        decreases n - i,
    {
        let k = x.0.key_at(i).clone();
        let ghost kv = k@;
        proof {
            use_type_invariant(&x.0);
            x.0.lemma_at_get(i as int);
            assert(m.spec_len() == i);
            if m.contains_key(kv) {
                let j = choose|j: int| 0 <= j < m.spec_len() && m.spec_key_at(j) == kv;
                assert(x.0.spec_key_at(j) == x.0.spec_key_at(i as int));
            }
        }
        let slot: Option<Shape> = match x.0.val_at(i) {
            Some(s) => Some(s.clone()),
            None => match y.0.get(&k) {
                Some(yslot) => match yslot {
                    Some(s) => Some(s.clone()),
                    None => None,
                },
                None => None,
            },
        };
        let ghost sv = slot;
        proof {
            assert(oshape_view(sv) == linked_dims(*x, *y, kv));
        }
        m.push_pair(k, slot);
        proof {
            assert(m.key_seq() =~= x.0.key_seq().take(i + 1));
            assert(m.spec_get(kv) == Some(sv));
            assert forall|j: int|
                #![trigger x.0.spec_key_at(j)]
                0 <= j < i + 1 implies (m.spec_get(x.0.spec_key_at(j)) matches Some(o)
                && oshape_view(o) == linked_dims(*x, *y, x.0.spec_key_at(j))) by {
                if j < i {
                    assert(x.0.spec_key_at(j) != kv);
                }
            }
        }
        i = i + 1;
    }
    proof {
        assert(m.key_seq() =~= x.0.key_seq());
        assert forall|k: Seq<char>|
            m.contains_key(k) implies (m.spec_get(k) matches Some(o) && oshape_view(o)
            == linked_dims(*x, *y, k)) by {
            let j = choose|j: int| 0 <= j < m.spec_len() && m.spec_key_at(j) == k;
            assert(x.0.spec_key_at(j) == k);
        }
    }
    m
}

/// Links two port tables in place. On success both tables keep their own
/// keys and order, and every port of either side resolves to the linked
/// shape; on failure neither table is changed.
pub fn link_shapes(a: &mut Shapes, b: &mut Shapes) -> (r: Result<(), Error>)
    ensures
        match r {
            Ok(_) => {
                &&& link_ok(*old(a), *old(b))
                &&& final(a).0.key_seq() == old(a).0.key_seq()
                &&& final(b).0.key_seq() == old(b).0.key_seq()
                &&& forall|k: Seq<char>|
                    final(a).contains_port(k) <==> old(a).contains_port(k)
                &&& forall|k: Seq<char>|
                    final(b).contains_port(k) <==> old(b).contains_port(k)
                &&& forall|k: Seq<char>|
                    #![trigger dims_of(*final(a), k)]
                    dims_of(*final(a), k) == linked_dims(*old(a), *old(b), k)
                &&& forall|k: Seq<char>|
                    #![trigger dims_of(*final(b), k)]
                    dims_of(*final(b), k) == linked_dims(*old(b), *old(a), k)
            },
            Err(e) => {
                &&& !link_ok(*old(a), *old(b))
                &&& *final(a) == *old(a)
                &&& *final(b) == *old(b)
                &&& (e matches Error::MismatchedShapeKeys { .. } || e
                    matches Error::MismatchedShapes { .. } || e matches Error::DifferentValues {
                    ..
                })
                &&& (!(forall|k: Seq<char>| old(a).contains_port(k) <==> old(b).contains_port(
                    k,
                )) ==> (e matches Error::MismatchedShapeKeys { .. }))
                &&& (match e {
                    Error::MismatchedShapeKeys { expected, given } => {
                        &&& expected@.len() == old(a).0.spec_len()
                        &&& (forall|i: int|
                            0 <= i < expected@.len() ==> #[trigger] expected@[i]@ == old(
                                a,
                            ).0.spec_key_at(i))
                        &&& given@.len() == old(b).0.spec_len()
                        &&& (forall|i: int|
                            0 <= i < given@.len() ==> #[trigger] given@[i]@ == old(
                                b,
                            ).0.spec_key_at(i))
                    },
                    _ => true,
                })
            },
        },
{
    let keys_ok = ports_subset(a, b) && ports_subset(b, a);
    if !keys_ok {
        return Err(
            Error::MismatchedShapeKeys { expected: a.0.keys(), given: b.0.keys() },
        );
    }
    match slots_unify(a, b) {
        Ok(_) => {},
        Err(e) => {
            proof {
                assert(!link_ok(*a, *b));
            }
            return Err(e);
        },
    }
    let ma = merged_table(a, b);
    let mb = merged_table(b, a);
    let ghost a0 = *a;
    let ghost b0 = *b;
    a.0 = ma;
    b.0 = mb;
    proof {
        assert forall|k: Seq<char>|
            (a.0.contains_key(k) <==> a0.0.contains_key(k)) && (b.0.contains_key(k)
            <==> b0.0.contains_key(k)) by {
            if a0.0.contains_key(k) {
                let j = a0.0.index_of(k);
                assert(0 <= j < a0.0.spec_len() && a0.0.spec_key_at(j) == k);
                assert(a.0.spec_key_at(j) == k);
            }
            if a.0.contains_key(k) {
                let j = a.0.index_of(k);
                assert(0 <= j < a.0.spec_len() && a.0.spec_key_at(j) == k);
                assert(a0.0.spec_key_at(j) == k);
            }
            if b0.0.contains_key(k) {
                let j = b0.0.index_of(k);
                assert(0 <= j < b0.0.spec_len() && b0.0.spec_key_at(j) == k);
                assert(b.0.spec_key_at(j) == k);
            }
            if b.0.contains_key(k) {
                let j = b.0.index_of(k);
                assert(0 <= j < b.0.spec_len() && b.0.spec_key_at(j) == k);
                assert(b0.0.spec_key_at(j) == k);
            }
        }
        assert forall|k: Seq<char>|
            #![trigger dims_of(*a, k)]
            dims_of(*a, k) == linked_dims(a0, b0, k) by {
            if a.0.contains_key(k) {
            } else {
                if a0.contains_port(k) {
                    let j = a0.0.index_of(k);
                    assert(0 <= j < a0.0.spec_len() && a0.0.spec_key_at(j) == k);
                    assert(a.0.spec_key_at(j) == k);
                    assert(a.0.contains_key(k));
                }
                assert(dims_of(a0, k) is None);
                assert(!b0.contains_port(k));
                assert(dims_of(b0, k) is None);
            }
        }
        assert forall|k: Seq<char>|
            #![trigger dims_of(*b, k)]
            dims_of(*b, k) == linked_dims(b0, a0, k) by {
            if b.0.contains_key(k) {
            } else {
                if b0.contains_port(k) {
                    let j = b0.0.index_of(k);
                    assert(0 <= j < b0.0.spec_len() && b0.0.spec_key_at(j) == k);
                    assert(b.0.spec_key_at(j) == k);
                    assert(b.0.contains_key(k));
                }
                assert(dims_of(b0, k) is None);
                assert(!a0.contains_port(k));
                assert(dims_of(a0, k) is None);
            }
        }
    }
    Ok(())
}

/// Law: every table links to itself without change — each port keeps
/// exactly the shape it had.
pub proof fn lemma_link_self(x: Shapes)
    ensures
        link_ok(x, x),
        forall|k: Seq<char>| #![trigger linked_dims(x, x, k)] linked_dims(x, x, k) == dims_of(x, k),
{
    assert forall|k: Seq<char>| #![trigger dims_of(x, k)] slot_unify(dims_of(x, k), dims_of(x, k))
        by {
        match dims_of(x, k) {
            Some(d) => {
                assert forall|i: int| 0 <= i < d.len() implies dims_eq(d[i], d[i]) by {
                    lemma_veq_refl(crate::value::spec_reduce(d[i]));
                }
            },
            None => {},
        }
    }
}

/// Law: linking is idempotent and symmetric at the resolved state. Once
/// two tables are linked, linking them again — in either order — leaves
/// every port's resolved shape as it is.
pub proof fn lemma_link_idempotent(x: Shapes, y: Shapes)
    requires
        link_ok(x, y),
    ensures
        forall|k: Seq<char>|
            #![trigger linked_dims(x, y, k)]
            slot_unify(linked_dims(x, y, k), linked_dims(y, x, k)) && merge_dims(
                linked_dims(x, y, k),
                linked_dims(y, x, k),
            ) == linked_dims(x, y, k) && merge_dims(
                linked_dims(y, x, k),
                linked_dims(x, y, k),
            ) == linked_dims(y, x, k),
{
    assert forall|k: Seq<char>|
        #![trigger linked_dims(x, y, k)]
        slot_unify(linked_dims(x, y, k), linked_dims(y, x, k)) && merge_dims(
            linked_dims(x, y, k),
            linked_dims(y, x, k),
        ) == linked_dims(x, y, k) && merge_dims(
            linked_dims(y, x, k),
            linked_dims(x, y, k),
        ) == linked_dims(y, x, k) by {
        assert(slot_unify(dims_of(x, k), dims_of(y, k)));
        match (dims_of(x, k), dims_of(y, k)) {
            (Some(dx), Some(dy)) => {
                assert(dims_unify(dx, dy));
                assert forall|i: int| 0 <= i < dy.len() implies dims_eq(dy[i], dx[i]) by {
                    lemma_veq_sym(
                        crate::value::spec_reduce(dx[i]),
                        crate::value::spec_reduce(dy[i]),
                    );
                }
            },
            (Some(dx), None) => {
                assert(linked_dims(x, y, k) == Some(dx));
                assert(linked_dims(y, x, k) == Some(dx));
                assert forall|i: int| 0 <= i < dx.len() implies dims_eq(dx[i], dx[i]) by {
                    lemma_veq_refl(crate::value::spec_reduce(dx[i]));
                }
            },
            (None, Some(dy)) => {
                assert(linked_dims(x, y, k) == Some(dy));
                assert(linked_dims(y, x, k) == Some(dy));
                assert forall|i: int| 0 <= i < dy.len() implies dims_eq(dy[i], dy[i]) by {
                    lemma_veq_refl(crate::value::spec_reduce(dy[i]));
                }
            },
            (None, None) => {},
        }
    }
}

} // verus!
