//! The computations: `recompute_stack_index` and `apply_rotation`, the two
//! writers of the update stage, and the read-only `render_layers`. Each is
//! specified against the store's mathematical model.

use vstd::prelude::*;
use crate::store::{
    AttributeKind, AttributeValue, EcsError, EntityId, RecView, Store, parents_in_range,
};

verus! {

/// A layer row of the stacking computation: it carries a parent reference
/// and a stacking order slot.
pub open spec fn layer_row(r: RecView) -> bool {
    r.parent_ref is Some && r.stack_index is Some
}

/// How many layer rows before position `i` carry the parent attribute `p`
/// (`None` marks roots): the prior siblings of `i` in query order.
pub open spec fn siblings_before(s: Seq<RecView>, p: Option<EntityId>, i: int) -> int
    decreases i,
{
    if i <= 0 {
        0
    } else {
        siblings_before(s, p, i - 1) + if layer_row(s[i - 1]) && s[i - 1].parent_ref == Some(p) {
            1int
        } else {
            0int
        }
    }
}

/// The stacking order `recompute_stack_index` assigns to the layer row at
/// `i`: children of a parent are numbered from 0, roots from 1, each in
/// query order.
pub open spec fn stack_value(s: Seq<RecView>, i: int) -> int {
    match s[i].parent_ref {
        Some(Some(p)) => siblings_before(s, Some(p), i),
        Some(None) => siblings_before(s, None, i) + 1,
        None => 0,
    }
}

/// The record `r` with its stacking order overwritten.
pub open spec fn with_stack(r: RecView, z: u64) -> RecView {
    RecView { stack_index: Some(z), ..r }
}

/// The store after `recompute_stack_index`: every layer row gets its
/// stacking order from scratch, everything else is untouched.
pub open spec fn stack_result(s: Seq<RecView>) -> Seq<RecView> {
    Seq::new(
        s.len(),
        |i: int|
            if layer_row(s[i]) {
                with_stack(s[i], stack_value(s, i) as u64)
            } else {
                s[i]
            },
    )
}

/// Two records that agree on everything except possibly the value of a
/// carried stacking order.
pub open spec fn same_but_stack(r1: RecView, r2: RecView) -> bool {
    &&& r1.layer_name == r2.layer_name
    &&& r1.parent_ref == r2.parent_ref
    &&& r1.rotation_angle == r2.rotation_angle
    &&& r1.rotation_delta == r2.rotation_delta
    &&& r1.target_layer == r2.target_layer
    &&& (r1.stack_index is Some <==> r2.stack_index is Some)
}

/// Law: recomputing the stacking order only rewrites carried stacking
/// orders. Names, parents, angles, deltas, targets and the set of carried
/// attributes all stay as they were.
pub proof fn lemma_stack_touches_only_stack(s: Seq<RecView>)
    ensures
        stack_result(s).len() == s.len(),
        forall|j: int| 0 <= j < s.len() ==> same_but_stack(s[j], #[trigger] stack_result(s)[j]),
{
}

/// Prior-sibling counts never exceed the position counted up to.
proof fn lemma_siblings_bound(s: Seq<RecView>, p: Option<EntityId>, i: int)
    requires
        i >= 0,
    ensures
        0 <= siblings_before(s, p, i) <= i,
    decreases i,
{
    if i > 0 {
        lemma_siblings_bound(s, p, i - 1);
    }
}

/// Recomputes the stacking order of every layer row, in query order: a
/// child's order is its count of prior siblings under the same parent
/// (first sibling 0), a root's is one more than the count of prior roots
/// (first root 1). Non-layer rows and all other attributes are untouched.
pub fn recompute_stack_index(store: &mut Store)
    requires
        old(store).wf(),
        parents_in_range(old(store)@),
    ensures
        final(store).wf(),
        final(store)@ == stack_result(old(store)@),
{
    let ghost s0 = store@;
    let n = store.entity_count();
    let mut counters: Vec<u64> = Vec::new();
    let mut k: usize = 0;
    while k < n
        invariant
            k <= n,
            counters@.len() == k,
            forall|p: int| 0 <= p < k ==> counters@[p] == 0,
        decreases n - k,
    {
        counters.push(0);
        k = k + 1;
    }
    let mut root_counter: u64 = 0;
    let mut i: usize = 0;
    while i < n
        invariant
            store.wf(),
            n == s0.len(),
            store@.len() == n,
            i <= n,
            parents_in_range(s0),
            counters@.len() == n,
            forall|p: int|
                0 <= p < n ==> counters@[p] == siblings_before(s0, Some(p as EntityId), i as int),
            root_counter == siblings_before(s0, None::<EntityId>, i as int),
            forall|j: int| 0 <= j < i ==> store@[j] == stack_result(s0)[j],
            forall|j: int| i <= j < n ==> store@[j] == s0[j],
        decreases n - i,
    {
        proof {
            lemma_siblings_bound(s0, s0[i as int].parent_ref->Some_0, i as int);
            lemma_siblings_bound(s0, None::<EntityId>, i as int);
            assert(usize::MAX <= u64::MAX);
        }
        if store.kind_present(i, AttributeKind::ParentRef) && store.kind_present(
            i,
            AttributeKind::StackIndex,
        ) {
            let parent = store.parent_of(i);
            match parent {
                Some(Some(p)) => {
                    let c = counters[p];
                    store.attach(i, AttributeValue::StackIndex(c));
                    counters.set(p, c + 1);
                },
                Some(None) => {
                    root_counter = root_counter + 1;
                    store.attach(i, AttributeValue::StackIndex(root_counter));
                },
                None => {},
            }
        }
        proof {
            assert forall|p: int|
                0 <= p < n implies counters@[p] == siblings_before(
                s0,
                Some(p as EntityId),
                i + 1,
            ) by {
                assert(siblings_before(s0, Some(p as EntityId), i + 1) == siblings_before(
                    s0,
                    Some(p as EntityId),
                    i as int,
                ) + if layer_row(s0[i as int]) && s0[i as int].parent_ref == Some(
                    Some(p as EntityId),
                ) {
                    1int
                } else {
                    0int
                });
            }
            assert(siblings_before(s0, None::<EntityId>, i + 1) == siblings_before(
                s0,
                None::<EntityId>,
                i as int,
            ) + if layer_row(s0[i as int]) && s0[i as int].parent_ref == Some(None::<EntityId>) {
                1int
            } else {
                0int
            });
        }
        i = i + 1;
    }
    proof {
        assert(store@ =~= stack_result(s0));
    }
}

/// An operation row of the rotation computation: it carries a target layer
/// reference and a per-tick delta.
pub open spec fn op_row(r: RecView) -> bool {
    r.target_layer is Some && r.rotation_delta is Some
}

/// Whether the operation row at `i` dangles: its target is no entity of
/// the store, or one that carries no rotation angle.
pub open spec fn op_dangles(s: Seq<RecView>, i: int) -> bool {
    op_row(s[i]) && !(s[i].target_layer->Some_0 < s.len() && s[s[i].target_layer->Some_0 as int].rotation_angle is Some)
}

/// Whether any operation row of the store dangles.
pub open spec fn some_op_dangles(s: Seq<RecView>) -> bool {
    exists|i: int| 0 <= i < s.len() && op_dangles(s, i)
}

/// The record `r` with its rotation angle overwritten.
pub open spec fn with_angle(r: RecView, a: i64) -> RecView {
    RecView { rotation_angle: Some(a), ..r }
}

/// The store after the one operation row at `i` (if `i` is one, and does
/// not dangle) has added its delta to its target's angle, wrapping on
/// overflow of the fixed-point range.
pub open spec fn apply_op(s: Seq<RecView>, i: int) -> Seq<RecView> {
    if op_row(s[i]) && !op_dangles(s, i) {
        let t = s[i].target_layer->Some_0 as int;
        let d = s[i].rotation_delta->Some_0;
        let a = s[t].rotation_angle->Some_0;
        s.update(t, with_angle(s[t], vstd::wrapping::i64_specs::wrapping_add(a, d)))
    } else {
        s
    }
}

/// The store after the operation rows at positions below `n` have been
/// applied, in query order.
pub open spec fn rotation_prefix(s: Seq<RecView>, n: int) -> Seq<RecView>
    decreases n,
{
    if n <= 0 {
        s
    } else {
        apply_op(rotation_prefix(s, n - 1), n - 1)
    }
}

/// The store after `apply_rotation`: every operation row applied once.
pub open spec fn rotation_result(s: Seq<RecView>) -> Seq<RecView> {
    rotation_prefix(s, s.len() as int)
}

/// Two records that agree on everything except possibly the value of a
/// carried rotation angle.
pub open spec fn same_but_angle(r1: RecView, r2: RecView) -> bool {
    &&& r1.layer_name == r2.layer_name
    &&& r1.parent_ref == r2.parent_ref
    &&& r1.stack_index == r2.stack_index
    &&& r1.rotation_delta == r2.rotation_delta
    &&& r1.target_layer == r2.target_layer
    &&& (r1.rotation_angle is Some <==> r2.rotation_angle is Some)
}

/// Law: applying rotation operations only rewrites carried rotation
/// angles. Layer names, parents, stacking orders, deltas, targets and the
/// set of carried attributes all stay as they were.
pub proof fn lemma_rotation_touches_only_angles(s: Seq<RecView>, n: int)
    requires
        n >= 0,
    ensures
        rotation_prefix(s, n).len() == s.len(),
        forall|j: int| 0 <= j < s.len() ==> same_but_angle(s[j], #[trigger] rotation_prefix(s, n)[j]),
    decreases n,
{
    if n > 0 {
        lemma_rotation_touches_only_angles(s, n - 1);
    }
}

/// Dangling is a function of the fields rotation never rewrites, so it is
/// stable while operations are applied.
proof fn lemma_dangle_stable(s: Seq<RecView>, n: int, i: int)
    requires
        n >= 0,
        0 <= i < s.len(),
    ensures
        op_row(rotation_prefix(s, n)[i]) == op_row(s[i]),
        op_dangles(rotation_prefix(s, n), i) == op_dangles(s, i),
{
    lemma_rotation_touches_only_angles(s, n);
}

/// Applies every operation row once, in query order: adds its delta to the
/// rotation angle of its target layer, wrapping on overflow of the
/// fixed-point range. Angles accumulate across ticks; nothing resets them.
/// If any operation row dangles, fails with
/// [`EcsError::DanglingReference`] and leaves the whole store untouched:
/// no partial rotation is applied.
pub fn apply_rotation(store: &mut Store) -> (r: Result<(), EcsError>)
    requires
        old(store).wf(),
    ensures
        final(store).wf(),
        some_op_dangles(old(store)@) ==> r == Err::<(), EcsError>(EcsError::DanglingReference)
            && final(store)@ == old(store)@,
        !some_op_dangles(old(store)@) ==> r == Ok::<(), EcsError>(()) && final(store)@
            == rotation_result(old(store)@),
{
    let ghost s0 = store@;
    let n = store.entity_count();
    let mut i: usize = 0;
    while i < n
        invariant
            store.wf(),
            store@ == s0,
            n == s0.len(),
            i <= n,
            forall|j: int| 0 <= j < i ==> !op_dangles(s0, j),
        decreases n - i,
    {
        if store.kind_present(i, AttributeKind::TargetLayer) && store.kind_present(
            i,
            AttributeKind::RotationDelta,
        ) {
            let t = store.target_of(i).unwrap();
            if t >= n {
                assert(op_dangles(s0, i as int));
                return Err(EcsError::DanglingReference);
            }
            if store.rotation_angle_of(t).is_none() {
                assert(op_dangles(s0, i as int));
                return Err(EcsError::DanglingReference);
            }
        }
        i = i + 1;
    }
    assert(!some_op_dangles(s0));
    let mut i: usize = 0;
    while i < n
        invariant
            store.wf(),
            n == s0.len(),
            i <= n,
            store@ == rotation_prefix(s0, i as int),
            forall|j: int| 0 <= j < n ==> !op_dangles(s0, j),
        decreases n - i,
    {
        let ghost prev = store@;
        proof {
            lemma_rotation_touches_only_angles(s0, i as int);
            lemma_dangle_stable(s0, i as int, i as int);
        }
        if store.kind_present(i, AttributeKind::TargetLayer) && store.kind_present(
            i,
            AttributeKind::RotationDelta,
        ) {
            let t = store.target_of(i).unwrap();
            let d = store.rotation_delta_of(i).unwrap();
            assert(t < n && prev[t as int].rotation_angle is Some);
            let a = store.rotation_angle_of(t).unwrap();
            store.attach(t, AttributeValue::RotationAngle(a.wrapping_add(d)));
            proof {
                assert(store@ =~= apply_op(prev, i as int));
            }
        } else {
            proof {
                assert(store@ == apply_op(prev, i as int));
            }
        }
        i = i + 1;
    }
    assert(store@ == rotation_result(s0));
    Ok(())
}

/// A row the render computation observes: a named layer with a computed
/// stacking order and a rotation angle.
pub open spec fn render_row(r: RecView) -> bool {
    r.layer_name is Some && r.stack_index is Some && r.rotation_angle is Some
}

/// The mathematical model of one rendered record.
pub ghost struct RenderView {
    pub name: Seq<char>,
    pub stack_index: u64,
    pub rotation_angle: i64,
}

/// One record the render computation emits per layer: its name, stacking
/// order and rotation angle (in thousandths of a unit).
#[derive(Clone, Debug, PartialEq, Eq)]
pub struct RenderRecord {
    pub name: String,
    pub stack_index: u64,
    pub rotation_angle: i64,
}

impl View for RenderRecord {
    type V = RenderView;

    open spec fn view(&self) -> RenderView {
        RenderView {
            name: self.name@,
            stack_index: self.stack_index,
            rotation_angle: self.rotation_angle,
        }
    }
}

/// The records rendered from the rows below `n`, in query order.
pub open spec fn render_prefix(s: Seq<RecView>, n: int) -> Seq<RenderView>
    decreases n,
{
    if n <= 0 {
        Seq::empty()
    } else {
        let pre = render_prefix(s, n - 1);
        if render_row(s[n - 1]) {
            pre.push(
                RenderView {
                    name: s[n - 1].layer_name->Some_0,
                    stack_index: s[n - 1].stack_index->Some_0,
                    rotation_angle: s[n - 1].rotation_angle->Some_0,
                },
            )
        } else {
            pre
        }
    }
}

/// What `render_layers` emits: one record per render row, in query order.
pub open spec fn render_result(s: Seq<RecView>) -> Seq<RenderView> {
    render_prefix(s, s.len() as int)
}

/// The read-only render computation: observes every named layer with a
/// stacking order and an angle, in query order, and emits one record per
/// such layer. The store is taken by shared reference, so nothing mutates.
pub fn render_layers(store: &Store) -> (out: Vec<RenderRecord>)
    requires
        store.wf(),
    ensures
        out@.map_values(|rec: RenderRecord| rec@) == render_result(store@),
{
    let n = store.entity_count();
    let mut out: Vec<RenderRecord> = Vec::new();
    let mut i: usize = 0;
    while i < n
        invariant
            store.wf(),
            n == store@.len(),
            i <= n,
            out@.map_values(|rec: RenderRecord| rec@) =~= render_prefix(store@, i as int),
        decreases n - i,
    {
        let ghost prev = out@;
        if store.kind_present(i, AttributeKind::LayerName) && store.kind_present(
            i,
            AttributeKind::StackIndex,
        ) && store.kind_present(i, AttributeKind::RotationAngle) {
            let name = store.layer_name_of(i).unwrap();
            let stack_index = store.stack_index_of(i).unwrap();
            let rotation_angle = store.rotation_angle_of(i).unwrap();
            out.push(RenderRecord { name, stack_index, rotation_angle });
        }
        proof {
            assert(out@.map_values(|rec: RenderRecord| rec@) =~= render_prefix(
                store@,
                i + 1,
            ));
        }
        i = i + 1;
    }
    proof {
        assert(out@.map_values(|rec: RenderRecord| rec@) =~= render_result(store@));
    }
    out
}

/// Whether the record at `i` is a root layer row.
pub open spec fn is_root_layer(s: Seq<RecView>, i: int) -> bool {
    0 <= i < s.len() && layer_row(s[i]) && s[i].parent_ref == Some(None::<EntityId>)
}

/// Whether the record at `i` is a layer row whose parent is `p`.
pub open spec fn is_child_of(s: Seq<RecView>, i: int, p: EntityId) -> bool {
    0 <= i < s.len() && layer_row(s[i]) && s[i].parent_ref == Some(Some(p))
}

/// How many root layer rows the store holds.
pub open spec fn root_count(s: Seq<RecView>) -> int {
    siblings_before(s, None::<EntityId>, s.len() as int)
}

/// How many layer rows the store holds under parent `p`.
pub open spec fn child_count(s: Seq<RecView>, p: EntityId) -> int {
    siblings_before(s, Some(p), s.len() as int)
}

/// Prior-sibling counts grow with the position counted up to.
proof fn lemma_siblings_monotonic(s: Seq<RecView>, p: Option<EntityId>, i: int, j: int)
    requires
        0 <= i <= j,
    ensures
        siblings_before(s, p, i) <= siblings_before(s, p, j),
    decreases j - i,
{
    if i < j {
        lemma_siblings_monotonic(s, p, i, j - 1);
    }
}

/// A layer row under `p` at position `i` raises the count strictly before
/// any later position.
proof fn lemma_siblings_strict(s: Seq<RecView>, p: Option<EntityId>, i: int, j: int)
    requires
        0 <= i < j,
        layer_row(s[i]),
        s[i].parent_ref == Some(p),
    ensures
        siblings_before(s, p, i) < siblings_before(s, p, j),
{
    assert(siblings_before(s, p, i + 1) == siblings_before(s, p, i) + 1);
    lemma_siblings_monotonic(s, p, i + 1, j);
}

/// Every count below the total is reached by exactly the layer row under
/// `p` that saw that many prior siblings.
proof fn lemma_sibling_rank_witness(s: Seq<RecView>, p: Option<EntityId>, v: int, n: int)
    requires
        0 <= v < siblings_before(s, p, n),
        n <= s.len(),
    ensures
        exists|i: int|
            0 <= i < n && layer_row(#[trigger] s[i]) && s[i].parent_ref == Some(p)
                && siblings_before(s, p, i) == v,
    decreases n,
{
    if n > 0 {
        if v < siblings_before(s, p, n - 1) {
            lemma_sibling_rank_witness(s, p, v, n - 1);
        } else {
            assert(layer_row(s[n - 1]) && s[n - 1].parent_ref == Some(p));
            assert(siblings_before(s, p, n - 1) == v);
        }
    }
}

/// Law: for root layers, the stacking computation assigns, in query order,
/// the values 1 through the count of roots: the root at `i` gets one more
/// than its count of prior roots, within that range, and a root later in
/// query order gets a strictly larger value — so no value repeats.
pub proof fn lemma_root_stack_indices(s: Seq<RecView>, i: int, j: int)
    requires
        s.len() <= usize::MAX,
        is_root_layer(s, i),
        is_root_layer(s, j),
        i < j,
    ensures
        stack_result(s)[i].stack_index == Some(
            (siblings_before(s, None::<EntityId>, i) + 1) as u64,
        ),
        1 <= siblings_before(s, None::<EntityId>, i) + 1 <= root_count(s),
        stack_result(s)[i].stack_index->Some_0 < stack_result(s)[j].stack_index->Some_0,
{
    lemma_siblings_bound(s, None::<EntityId>, i);
    lemma_siblings_bound(s, None::<EntityId>, j);
    lemma_siblings_strict(s, None::<EntityId>, i, s.len() as int);
    lemma_siblings_strict(s, None::<EntityId>, i, j);
    lemma_siblings_strict(s, None::<EntityId>, j, s.len() as int);
}

/// Law: every value from 1 to the count of roots is assigned to some root
/// layer — together with the strict order above, the roots carry exactly
/// the values 1 through that count, with no repeats and no gaps.
pub proof fn lemma_root_stack_onto(s: Seq<RecView>, v: int)
    requires
        s.len() <= usize::MAX,
        1 <= v <= root_count(s),
    ensures
        exists|i: int|
            #[trigger] is_root_layer(s, i) && stack_result(s)[i].stack_index == Some(v as u64),
{
    lemma_sibling_rank_witness(s, None::<EntityId>, v - 1, s.len() as int);
    let i = choose|i: int|
        0 <= i < s.len() && layer_row(#[trigger] s[i]) && s[i].parent_ref == Some(
            None::<EntityId>,
        ) && siblings_before(s, None::<EntityId>, i) == v - 1;
    lemma_siblings_bound(s, None::<EntityId>, i);
    assert(is_root_layer(s, i) && stack_result(s)[i].stack_index == Some(v as u64));
}

/// Law: for the layer rows under one parent `p`, the stacking computation
/// assigns, in query order, the values 0 through one less than the count
/// of `p`'s children: the child at `i` gets its count of prior siblings,
/// within that range, and a later sibling gets a strictly larger value —
/// so no value repeats.
pub proof fn lemma_child_stack_indices(s: Seq<RecView>, p: EntityId, i: int, j: int)
    requires
        s.len() <= usize::MAX,
        is_child_of(s, i, p),
        is_child_of(s, j, p),
        i < j,
    ensures
        stack_result(s)[i].stack_index == Some(siblings_before(s, Some(p), i) as u64),
        0 <= siblings_before(s, Some(p), i) <= child_count(s, p) - 1,
        stack_result(s)[i].stack_index->Some_0 < stack_result(s)[j].stack_index->Some_0,
{
    lemma_siblings_bound(s, Some(p), i);
    lemma_siblings_bound(s, Some(p), j);
    lemma_siblings_strict(s, Some(p), i, s.len() as int);
    lemma_siblings_strict(s, Some(p), i, j);
}

/// Law: every value from 0 to one less than the count of `p`'s children is
/// assigned to some child of `p` — together with the strict order above,
/// the children of `p` carry exactly those values, with no repeats.
pub proof fn lemma_child_stack_onto(s: Seq<RecView>, p: EntityId, v: int)
    requires
        s.len() <= usize::MAX,
        0 <= v < child_count(s, p),
    ensures
        exists|i: int|
            #[trigger] is_child_of(s, i, p) && stack_result(s)[i].stack_index == Some(v as u64),
{
    lemma_sibling_rank_witness(s, Some(p), v, s.len() as int);
    let i = choose|i: int|
        0 <= i < s.len() && layer_row(#[trigger] s[i]) && s[i].parent_ref == Some(Some(p))
            && siblings_before(s, Some(p), i) == v;
    lemma_siblings_bound(s, Some(p), i);
    assert(is_child_of(s, i, p) && stack_result(s)[i].stack_index == Some(v as u64));
}

/// The value congruent to `x` that lies within the signed 64-bit
/// fixed-point range: what an angle becomes after any chain of wrapping
/// additions summing to `x`.
pub open spec fn wrap_i64(x: int) -> int {
    ((x + 0x8000_0000_0000_0000) % 0x1_0000_0000_0000_0000) - 0x8000_0000_0000_0000
}

/// One wrapping addition lands on the wrap of the exact sum.
proof fn lemma_wrap_add(a: i64, d: i64)
    ensures
        vstd::wrapping::i64_specs::wrapping_add(a, d) == wrap_i64(a + d),
{
    let m = 0x1_0000_0000_0000_0000int;
    let h = 0x8000_0000_0000_0000int;
    if a + d > i64::MAX {
        assert(((a + d + h) % m) == (a + d + h - m) % m) by {
            vstd::arithmetic::div_mod::lemma_mod_multiples_vanish(1, a + d + h - m, m);
        }
        vstd::arithmetic::div_mod::lemma_small_mod((a + d + h - m) as nat, m as nat);
    } else if a + d < i64::MIN {
        assert(((a + d + h) % m) == (a + d + h + m) % m) by {
            vstd::arithmetic::div_mod::lemma_mod_multiples_vanish(-1, a + d + h + m, m);
        }
        vstd::arithmetic::div_mod::lemma_small_mod((a + d + h + m) as nat, m as nat);
    } else {
        vstd::arithmetic::div_mod::lemma_small_mod((a + d + h) as nat, m as nat);
    }
}

/// Law: wrapping collapses — wrapping a partial sum and adding more is
/// the same as wrapping the whole sum once.
pub proof fn lemma_wrap_wrap(x: int, y: int)
    ensures
        wrap_i64(wrap_i64(x) + y) == wrap_i64(x + y),
{
    let m = 0x1_0000_0000_0000_0000int;
    let h = 0x8000_0000_0000_0000int;
    let k = (x + h) / m;
    vstd::arithmetic::div_mod::lemma_fundamental_div_mod(x + h, m);
    assert(wrap_i64(x) == x - m * k);
    assert((wrap_i64(x) + y + h) % m == (x + y + h) % m) by {
        vstd::arithmetic::div_mod::lemma_mod_multiples_vanish(-k, x + y + h, m);
        assert(m * (-k) + (x + y + h) == wrap_i64(x) + y + h) by (nonlinear_arith)
            requires
                wrap_i64(x) == x - m * k,
        ;
    }
}

/// The total delta aimed at entity `e` by the operation rows below `n`, as
/// an unbounded integer.
pub open spec fn deltas_toward(s: Seq<RecView>, e: int, n: int) -> int
    decreases n,
{
    if n <= 0 {
        0
    } else {
        deltas_toward(s, e, n - 1) + if op_row(s[n - 1]) && s[n - 1].target_layer->Some_0 as int
            == e {
            s[n - 1].rotation_delta->Some_0 as int
        } else {
            0int
        }
    }
}

/// The total delta toward `e` depends only on targets and deltas, which
/// rotation and stacking never rewrite.
pub proof fn lemma_deltas_toward_transfer(s1: Seq<RecView>, s2: Seq<RecView>, e: int, n: int)
    requires
        forall|j: int|
            0 <= j < n ==> (#[trigger] s1[j]).target_layer == s2[j].target_layer && s1[j].rotation_delta
                == s2[j].rotation_delta,
    ensures
        deltas_toward(s1, e, n) == deltas_toward(s2, e, n),
    decreases n,
{
    if n > 0 {
        lemma_deltas_toward_transfer(s1, s2, e, n - 1);
    }
}

/// After the operation rows below `n` have been applied, the angle of a
/// layer `e` is the wrap of its starting angle plus every delta aimed at
/// it from below `n`, in one exact sum.
proof fn lemma_rotation_prefix_angle(s: Seq<RecView>, e: int, n: int)
    requires
        0 <= n <= s.len(),
        0 <= e < s.len(),
        s[e].rotation_angle is Some,
    ensures
        rotation_prefix(s, n)[e].rotation_angle is Some,
        rotation_prefix(s, n)[e].rotation_angle->Some_0 as int == wrap_i64(
            s[e].rotation_angle->Some_0 + deltas_toward(s, e, n),
        ),
    decreases n,
{
    let m = 0x1_0000_0000_0000_0000int;
    let h = 0x8000_0000_0000_0000int;
    if n == 0 {
        let a = s[e].rotation_angle->Some_0;
        vstd::arithmetic::div_mod::lemma_small_mod((a + h) as nat, m as nat);
    } else {
        lemma_rotation_prefix_angle(s, e, n - 1);
        let prev = rotation_prefix(s, n - 1);
        lemma_rotation_touches_only_angles(s, n - 1);
        lemma_dangle_stable(s, n - 1, n - 1);
        let a0 = s[e].rotation_angle->Some_0;
        if op_row(prev[n - 1]) && !op_dangles(prev, n - 1) {
            let t = prev[n - 1].target_layer->Some_0 as int;
            let d = prev[n - 1].rotation_delta->Some_0;
            if t == e {
                assert(rotation_prefix(s, n)[e].rotation_angle == Some(
                    vstd::wrapping::i64_specs::wrapping_add(prev[e].rotation_angle->Some_0, d),
                ));
                lemma_wrap_add(prev[e].rotation_angle->Some_0, d);
                lemma_wrap_wrap(a0 + deltas_toward(s, e, n - 1), d as int);
            } else {
                assert(rotation_prefix(s, n)[e] == prev[e]);
            }
        } else {
            if op_row(s[n - 1]) && s[n - 1].target_layer->Some_0 as int == e {
                assert(!op_dangles(s, n - 1));
                assert(false);
            }
            assert(rotation_prefix(s, n)[e] == prev[e]);
        }
    }
}

/// Law: rotation is additive, and repeating it accumulates rather than
/// resets — one pass moves the angle of layer `e` to the wrap of its old
/// angle plus the total delta aimed at it; a second pass over the same
/// operations adds that total again, so two passes add it exactly twice.
pub proof fn lemma_rotation_accumulates(s: Seq<RecView>, e: int)
    requires
        0 <= e < s.len(),
        s[e].rotation_angle is Some,
    ensures
        rotation_result(s)[e].rotation_angle is Some,
        rotation_result(s)[e].rotation_angle->Some_0 as int == wrap_i64(
            s[e].rotation_angle->Some_0 + deltas_toward(s, e, s.len() as int),
        ),
        rotation_result(rotation_result(s))[e].rotation_angle->Some_0 as int == wrap_i64(
            s[e].rotation_angle->Some_0 + 2 * deltas_toward(s, e, s.len() as int),
        ),
{
    let n = s.len() as int;
    let s1 = rotation_result(s);
    lemma_rotation_prefix_angle(s, e, n);
    lemma_rotation_touches_only_angles(s, n);
    lemma_rotation_prefix_angle(s1, e, n);
    lemma_deltas_toward_transfer(s1, s, e, n);
    let a0 = s[e].rotation_angle->Some_0;
    let d = deltas_toward(s, e, n);
    lemma_wrap_wrap(a0 + d, d);
}

/// Law: the stacking computation is a function of the hierarchy alone.
/// Two store states with the same parents and the same set of layer rows —
/// for instance, before and after rotations, or on a later tick of a
/// static hierarchy — get identical stacking orders assigned.
pub proof fn lemma_stack_indices_stable(s1: Seq<RecView>, s2: Seq<RecView>)
    requires
        s1.len() == s2.len(),
        forall|j: int|
            0 <= j < s1.len() ==> (#[trigger] s1[j]).parent_ref == s2[j].parent_ref && (
            s1[j].stack_index is Some <==> s2[j].stack_index is Some),
    ensures
        forall|i: int|
            0 <= i < s1.len() && layer_row(s1[i]) ==> (#[trigger] stack_result(
                s1,
            )[i]).stack_index == stack_result(s2)[i].stack_index,
{
    assert forall|i: int|
        0 <= i < s1.len() && layer_row(s1[i]) implies (#[trigger] stack_result(
        s1,
    )[i]).stack_index == stack_result(s2)[i].stack_index by {
        lemma_siblings_transfer(s1, s2, s1[i].parent_ref->Some_0, i);
        assert(layer_row(s2[i]));
        assert(stack_value(s1, i) == stack_value(s2, i));
    }
}

/// Prior-sibling counts agree between two states with the same hierarchy.
proof fn lemma_siblings_transfer(s1: Seq<RecView>, s2: Seq<RecView>, p: Option<EntityId>, n: int)
    requires
        forall|j: int|
            0 <= j < n ==> (#[trigger] s1[j]).parent_ref == s2[j].parent_ref && (
            s1[j].stack_index is Some <==> s2[j].stack_index is Some),
    ensures
        siblings_before(s1, p, n) == siblings_before(s2, p, n),
    decreases n,
{
    if n > 0 {
        lemma_siblings_transfer(s1, s2, p, n - 1);
    }
}

} // verus!
