//! The query engine: given a requested shape, an ordered list of attribute
//! types with a declared access mode each, it yields every entity that
//! carries all requested attribute types, in store-insertion order.
//! Attribute values are then reached through the store's typed lookups;
//! the declared access modes drive the scheduler's conflict analysis.

use vstd::prelude::*;
use crate::store::{AttributeKind, EntityId, RecView, Store, has_kind};

verus! {

/// Declared access of a computation to one attribute type.
#[derive(Clone, Copy, Debug, PartialEq, Eq, Structural)]
pub enum AccessMode {
    Read,
    Write,
}

/// One requested attribute type with its access mode.
#[derive(Clone, Copy, Debug, PartialEq, Eq, Structural)]
pub struct AccessRequest {
    pub kind: AttributeKind,
    pub mode: AccessMode,
}

/// Whether a record carries every attribute type the shape requests.
pub open spec fn matches_shape(r: RecView, shape: Seq<AccessRequest>) -> bool {
    forall|k: int| 0 <= k < shape.len() ==> has_kind(r, (#[trigger] shape[k]).kind)
}

/// All entities that carry every attribute type of `shape`, in
/// store-insertion order: no matching entity is skipped, none lacking a
/// requested attribute is included, and no entity appears twice.
pub fn query(store: &Store, shape: &Vec<AccessRequest>) -> (r: Vec<EntityId>)
    requires
        store.wf(),
    ensures
        forall|k: int|
            0 <= k < r@.len() ==> (#[trigger] r@[k]) < store@.len() && matches_shape(
                store@[r@[k] as int],
                shape@,
            ),
        forall|k1: int, k2: int| 0 <= k1 < k2 < r@.len() ==> r@[k1] < r@[k2],
        forall|e: int|
            0 <= e < store@.len() && matches_shape(#[trigger] store@[e], shape@) ==> r@.contains(
                e as EntityId,
            ),
{
    let n = store.entity_count();
    let mut r: Vec<EntityId> = Vec::new();
    let mut e: usize = 0;
    while e < n
        invariant
            store.wf(),
            n == store@.len(),
            e <= n,
            forall|k: int|
                0 <= k < r@.len() ==> (#[trigger] r@[k]) < e && matches_shape(
                    store@[r@[k] as int],
                    shape@,
                ),
            forall|k1: int, k2: int| 0 <= k1 < k2 < r@.len() ==> r@[k1] < r@[k2],
            forall|f: int|
                0 <= f < e && matches_shape(#[trigger] store@[f], shape@) ==> r@.contains(
                    f as EntityId,
                ),
        decreases n - e,
    {
        if entity_matches(store, e, shape) {
            let ghost prev = r@;
            r.push(e);
            proof {
                assert(r@[r@.len() - 1] == e as EntityId);
                assert forall|f: int|
                    0 <= f < e + 1 && matches_shape(#[trigger] store@[f], shape@) implies r@
                    .contains(f as EntityId) by {
                    if f < e {
                        let i = choose|i: int|
                            0 <= i < prev.len() && prev[i] == f as EntityId;
                        assert(r@[i] == f as EntityId);
                    } else {
                        assert(r@[r@.len() - 1] == f as EntityId);
                    }
                }
            }
        }
        e = e + 1;
    }
    r
}

/// Whether entity `e` carries every attribute type of `shape`.
fn entity_matches(store: &Store, e: EntityId, shape: &Vec<AccessRequest>) -> (r: bool)
    requires
        store.wf(),
        e < store@.len(),
    ensures
        r == matches_shape(store@[e as int], shape@),
{
    let mut k: usize = 0;
    while k < shape.len()
        invariant
            store.wf(),
            e < store@.len(),
            k <= shape@.len(),
            forall|j: int| 0 <= j < k ==> has_kind(store@[e as int], (#[trigger] shape@[j]).kind),
        decreases shape@.len() - k,
    {
        if !store.kind_present(e, shape[k].kind) {
            return false;
        }
        k = k + 1;
    }
    true
}

} // verus!
