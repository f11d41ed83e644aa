//! The tick driver: one invocation runs every stage of the schedule in
//! declared order over the persistent store, with a full barrier between
//! stages, and hands back what the render computations emitted. This
//! driver executes each stage's computations one after another in declared
//! order — within a concurrent stage that is one of the allowed
//! serializations, and the stage's construction-time conflict check
//! guarantees the result is the same for every other one.

use vstd::prelude::*;
use vstd::pervasive::unreached;
use crate::schedule::{ComputationKind, Discipline, Schedule, Stage, StageView, conflicts, lemma_update_stage_conflict_free, stage_ok};
use crate::store::{EcsError, RecView, Store, parent_ok, parents_in_range};
use crate::systems::{
    RenderRecord, RenderView, apply_rotation, deltas_toward, layer_row,
    lemma_rotation_accumulates, lemma_rotation_touches_only_angles, lemma_stack_indices_stable,
    lemma_deltas_toward_transfer, lemma_stack_touches_only_stack, lemma_wrap_wrap, recompute_stack_index, render_layers,
    render_result, rotation_result, same_but_angle, same_but_stack, some_op_dangles, stack_result,
    wrap_i64,
};

verus! {

/// Whether computation `k` fails on store state `s`: only the rotation
/// computation can fail, on a dangling operation row.
pub open spec fn comp_fails(s: Seq<RecView>, k: ComputationKind) -> bool {
    k == ComputationKind::ApplyRotation && some_op_dangles(s)
}

/// The store after computation `k` has run on `s`, when it does not fail;
/// a failing computation leaves the store as it was.
pub open spec fn comp_result(s: Seq<RecView>, k: ComputationKind) -> Seq<RecView> {
    match k {
        ComputationKind::RecomputeStackIndex => stack_result(s),
        ComputationKind::ApplyRotation => rotation_result(s),
        ComputationKind::RenderLayers => s,
    }
}

/// What computation `k` emits on store state `s`.
pub open spec fn comp_output(s: Seq<RecView>, k: ComputationKind) -> Seq<RenderView> {
    if k == ComputationKind::RenderLayers {
        render_result(s)
    } else {
        Seq::empty()
    }
}

/// The computations of the schedule's stages, flattened in execution
/// order.
pub open spec fn sched_comps(stages: Seq<StageView>) -> Seq<ComputationKind>
    decreases stages.len(),
{
    if stages.len() == 0 {
        Seq::empty()
    } else {
        sched_comps(stages.drop_last()) + stages.last().computations
    }
}

/// The store after the first `n` scheduled computations, in order.
pub open spec fn tick_state(s: Seq<RecView>, ks: Seq<ComputationKind>, n: int) -> Seq<RecView>
    decreases n,
{
    if n <= 0 {
        s
    } else {
        comp_result(tick_state(s, ks, n - 1), ks[n - 1])
    }
}

/// What the first `n` scheduled computations emit, concatenated in order.
pub open spec fn tick_output(s: Seq<RecView>, ks: Seq<ComputationKind>, n: int) -> Seq<RenderView>
    decreases n,
{
    if n <= 0 {
        Seq::empty()
    } else {
        tick_output(s, ks, n - 1) + comp_output(tick_state(s, ks, n - 1), ks[n - 1])
    }
}

/// Whether none of the first `n` scheduled computations fails.
pub open spec fn fail_free(s: Seq<RecView>, ks: Seq<ComputationKind>, n: int) -> bool {
    forall|m: int| 0 <= m < n ==> !comp_fails(tick_state(s, ks, m), #[trigger] ks[m])
}

/// Runs one full tick: every stage in declared order, each stage's
/// computations in declared order, a stage beginning only after the
/// previous one finished. On success, returns all rendered records in
/// emission order. When a computation fails, the failing computation has
/// changed nothing, computations before it keep their effect, nothing
/// after it runs, and the error surfaces here — the tick is aborted, not
/// silently patched over.
pub fn run_tick(store: &mut Store, schedule: &Schedule) -> (r: Result<Vec<RenderRecord>, EcsError>)
    requires
        old(store).wf(),
        parents_in_range(old(store)@),
    ensures
        final(store).wf(),
        parents_in_range(final(store)@),
        fail_free(
            old(store)@,
            sched_comps(schedule@),
            sched_comps(schedule@).len() as int,
        ) ==> (r matches Ok(out) && final(store)@ == tick_state(
            old(store)@,
            sched_comps(schedule@),
            sched_comps(schedule@).len() as int,
        ) && out@.map_values(|rec: RenderRecord| rec@) == tick_output(
            old(store)@,
            sched_comps(schedule@),
            sched_comps(schedule@).len() as int,
        )),
        !fail_free(
            old(store)@,
            sched_comps(schedule@),
            sched_comps(schedule@).len() as int,
        ) ==> r == Err::<Vec<RenderRecord>, EcsError>(EcsError::DanglingReference) && exists|m: int|
            {
                &&& 0 <= m < sched_comps(schedule@).len()
                &&& #[trigger] fail_free(old(store)@, sched_comps(schedule@), m)
                &&& comp_fails(
                    tick_state(old(store)@, sched_comps(schedule@), m),
                    sched_comps(schedule@)[m],
                )
                &&& final(store)@ == tick_state(old(store)@, sched_comps(schedule@), m)
            },
{
    let ghost s0 = store@;
    let ghost ks = sched_comps(schedule@);

    // Flatten the schedule into its execution order.
    let mut comps: Vec<ComputationKind> = Vec::new();
    let stage_count = schedule.stage_count();
    let mut si: usize = 0;
    proof {
        assert(schedule@.take(0) =~= Seq::<StageView>::empty());
    }
    while si < stage_count
        invariant
            stage_count == schedule@.len(),
            si <= stage_count,
            comps@ == sched_comps(schedule@.take(si as int)),
        decreases stage_count - si,
    {
        let st = schedule.stage(si);
        let ghost flat_prefix = comps@;
        let comp_count = st.computation_count();
        let mut ci: usize = 0;
        proof {
            assert(st@.computations.take(0) =~= Seq::<ComputationKind>::empty());
            assert(comps@ =~= flat_prefix + st@.computations.take(0));
        }
        while ci < comp_count
            invariant
                comp_count == st@.computations.len(),
                ci <= comp_count,
                comps@ == flat_prefix + st@.computations.take(ci as int),
            decreases comp_count - ci,
        {
            comps.push(st.computation(ci));
            proof {
                assert(st@.computations.take(ci + 1) =~= st@.computations.take(ci as int).push(
                    st@.computations[ci as int],
                ));
                assert(comps@ =~= flat_prefix + st@.computations.take(ci + 1));
            }
            ci = ci + 1;
        }
        proof {
            assert(st@.computations.take(comp_count as int) =~= st@.computations);
            assert(schedule@.take(si + 1).drop_last() =~= schedule@.take(si as int));
            assert(schedule@.take(si + 1).last() == schedule@[si as int]);
            assert(comps@ =~= sched_comps(schedule@.take(si + 1)));
        }
        si = si + 1;
    }
    proof {
        assert(schedule@.take(schedule@.len() as int) =~= schedule@);
        assert(comps@ == ks);
    }

    // Run the computations in order, stopping at the first failure.
    let total = comps.len();
    let mut out: Vec<RenderRecord> = Vec::new();
    let mut idx: usize = 0;
    proof {
        assert(out@.map_values(|rec: RenderRecord| rec@) =~= tick_output(s0, ks, 0));
    }
    while idx < total
        invariant
            store.wf(),
            parents_in_range(store@),
            s0 == old(store)@,
            ks == sched_comps(schedule@),
            total == ks.len(),
            comps@ == ks,
            idx <= total,
            fail_free(s0, ks, idx as int),
            store@ == tick_state(s0, ks, idx as int),
            out@.map_values(|rec: RenderRecord| rec@) == tick_output(s0, ks, idx as int),
        decreases total - idx,
    {
        let ghost prev = store@;
        match comps[idx] {
            ComputationKind::RecomputeStackIndex => {
                recompute_stack_index(store);
                proof {
                    lemma_stack_touches_only_stack(prev);
                    assert forall|e: int|
                        0 <= e < store@.len() implies parent_ok(
                        #[trigger] store@[e],
                        store@.len() as int,
                    ) by {
                        assert(same_but_stack(prev[e], store@[e]));
                        assert(parent_ok(prev[e], prev.len() as int));
                    }
                }
            },
            ComputationKind::ApplyRotation => {
                match apply_rotation(store) {
                    Ok(()) => {
                        proof {
                            lemma_rotation_touches_only_angles(prev, prev.len() as int);
                            assert forall|e: int|
                                0 <= e < store@.len() implies parent_ok(
                                #[trigger] store@[e],
                                store@.len() as int,
                            ) by {
                                assert(same_but_angle(prev[e], store@[e]));
                                assert(parent_ok(prev[e], prev.len() as int));
                            }
                        }
                    },
                    Err(e) => {
                        proof {
                            assert(comp_fails(tick_state(s0, ks, idx as int), ks[idx as int]));
                            assert(!fail_free(s0, ks, ks.len() as int)) by {
                                if fail_free(s0, ks, ks.len() as int) {
                                    assert(!comp_fails(tick_state(s0, ks, idx as int), ks[idx as int]));
                                }
                            }
                        }
                        return Err(e);
                    },
                }
            },
            ComputationKind::RenderLayers => {
                let mut rendered = render_layers(store);
                let ghost out_prev = out@;
                out.append(&mut rendered);
                proof {
                    assert(out@.map_values(|rec: RenderRecord| rec@) =~= out_prev.map_values(
                        |rec: RenderRecord| rec@,
                    ) + comp_output(prev, ks[idx as int]));
                }
            },
        }
        proof {
            assert(store@ == tick_state(s0, ks, idx + 1));
            assert(out@.map_values(|rec: RenderRecord| rec@) =~= tick_output(s0, ks, idx + 1));
        }
        idx = idx + 1;
    }
    Ok(out)
}

/// The computations of the standard two-stage schedule, in execution
/// order.
pub open spec fn standard_comps() -> Seq<ComputationKind> {
    seq![
        ComputationKind::RecomputeStackIndex,
        ComputationKind::ApplyRotation,
        ComputationKind::RenderLayers,
    ]
}

/// Law: one standard tick leaves the store at the rotation result of the
/// stacking result; the render stage changes nothing.
pub proof fn lemma_standard_tick_state(s: Seq<RecView>)
    ensures
        tick_state(s, standard_comps(), 3) == rotation_result(stack_result(s)),
{
    assert(tick_state(s, standard_comps(), 0) == s);
    assert(tick_state(s, standard_comps(), 1) == stack_result(s));
    assert(tick_state(s, standard_comps(), 2) == rotation_result(stack_result(s)));
}

/// Law: the render stage runs after the update stage's barrier, so what a
/// standard tick emits is exactly the render of the fully settled final
/// state — never of a state mid-update.
pub proof fn lemma_standard_tick_output(s: Seq<RecView>)
    ensures
        tick_output(s, standard_comps(), 3) == render_result(tick_state(s, standard_comps(), 3)),
{
    lemma_standard_tick_state(s);
    assert(tick_output(s, standard_comps(), 0) == Seq::<RenderView>::empty());
    assert(tick_output(s, standard_comps(), 1) =~= Seq::<RenderView>::empty());
    assert(tick_output(s, standard_comps(), 2) =~= Seq::<RenderView>::empty());
    assert(tick_output(s, standard_comps(), 3) =~= render_result(tick_state(s, standard_comps(), 2)));
    assert(tick_state(s, standard_comps(), 3) == tick_state(s, standard_comps(), 2));
}

/// Law: over the standard schedule, each tick adds the total operation
/// delta aimed at a layer to its angle exactly once, so two ticks add it
/// exactly twice (rotation accumulates, it never resets); and while the
/// hierarchy is static the second tick reassigns every layer row the same
/// stacking order the first tick computed.
pub proof fn lemma_two_standard_ticks(s: Seq<RecView>, e: int)
    requires
        0 <= e < s.len(),
        s[e].rotation_angle is Some,
    ensures
        tick_state(s, standard_comps(), 3)[e].rotation_angle is Some,
        tick_state(s, standard_comps(), 3)[e].rotation_angle->Some_0 as int == wrap_i64(
            s[e].rotation_angle->Some_0 + deltas_toward(s, e, s.len() as int),
        ),
        tick_state(
            tick_state(s, standard_comps(), 3),
            standard_comps(),
            3,
        )[e].rotation_angle->Some_0 as int == wrap_i64(
            s[e].rotation_angle->Some_0 + 2 * deltas_toward(s, e, s.len() as int),
        ),
        forall|j: int|
            0 <= j < s.len() && layer_row(#[trigger] s[j]) ==> tick_state(
                tick_state(s, standard_comps(), 3),
                standard_comps(),
                3,
            )[j].stack_index == tick_state(s, standard_comps(), 3)[j].stack_index,
{
    let n = s.len() as int;
    let u1 = stack_result(s);
    let t1 = rotation_result(u1);
    let u2 = stack_result(t1);
    let t2 = rotation_result(u2);
    lemma_standard_tick_state(s);
    lemma_standard_tick_state(t1);
    lemma_stack_touches_only_stack(s);
    lemma_rotation_touches_only_angles(u1, n);
    lemma_stack_touches_only_stack(t1);
    lemma_rotation_touches_only_angles(u2, n);

    // Targets and deltas never change, so every state sums the same deltas.
    assert forall|j: int|
        0 <= j < n implies (#[trigger] u1[j]).target_layer == s[j].target_layer
            && u1[j].rotation_delta == s[j].rotation_delta by {
        assert(same_but_stack(s[j], u1[j]));
    }
    assert forall|j: int|
        0 <= j < n implies (#[trigger] u2[j]).target_layer == s[j].target_layer
            && u2[j].rotation_delta == s[j].rotation_delta by {
        assert(same_but_angle(u1[j], t1[j]));
        assert(same_but_stack(t1[j], u2[j]));
    }
    lemma_deltas_toward_transfer(u1, s, e, n);
    lemma_deltas_toward_transfer(u2, s, e, n);
    let a0 = s[e].rotation_angle->Some_0;
    let d = deltas_toward(s, e, n);

    // First tick: the stacking stage keeps the angle, rotation adds the sum.
    assert(same_but_stack(s[e], u1[e]));
    lemma_rotation_accumulates(u1, e);
    assert(t1[e].rotation_angle->Some_0 as int == wrap_i64(a0 + d));

    // Second tick: the same, starting from the wrapped first sum.
    assert(same_but_stack(t1[e], u2[e]));
    lemma_rotation_accumulates(u2, e);
    assert(t2[e].rotation_angle->Some_0 as int == wrap_i64(wrap_i64(a0 + d) + d));
    lemma_wrap_wrap(a0 + d, d);

    // The hierarchy did not move, so the second stacking pass assigns the
    // same orders, and rotation leaves them alone.
    assert forall|j: int|
        0 <= j < n implies (#[trigger] t1[j]).parent_ref == s[j].parent_ref && (t1[j].stack_index
            is Some <==> s[j].stack_index is Some) by {
        assert(same_but_stack(s[j], u1[j]));
        assert(same_but_angle(u1[j], t1[j]));
    }
    lemma_stack_indices_stable(t1, s);
    assert forall|j: int|
        0 <= j < s.len() && layer_row(#[trigger] s[j]) implies t2[j].stack_index
            == t1[j].stack_index by {
        assert(same_but_stack(s[j], u1[j]));
        assert(same_but_angle(u1[j], t1[j]));
        assert(layer_row(t1[j]));
        assert(u2[j].stack_index == stack_result(s)[j].stack_index);
        assert(same_but_angle(u2[j], t2[j]));
    }
}

/// The fixed two-stage schedule of this system: a concurrent `update`
/// stage holding the stacking and the rotation computation, whose access
/// sets are disjoint, then a sequential `render` stage holding the
/// read-only render computation.
pub fn standard_schedule() -> (s: Schedule)
    ensures
        sched_comps(s@) == standard_comps(),
{
    let mut update_comps: Vec<ComputationKind> = Vec::new();
    update_comps.push(ComputationKind::RecomputeStackIndex);
    update_comps.push(ComputationKind::ApplyRotation);
    proof {
        lemma_update_stage_conflict_free();
        assert forall|i: int, j: int|
            0 <= i < j < update_comps@.len() implies !conflicts(
            update_comps@[i],
            update_comps@[j],
        ) by {
            assert(i == 0 && j == 1);
        }
        assert(stage_ok(Discipline::Concurrent, update_comps@));
    }
    let update = match Stage::new("update".to_owned(), Discipline::Concurrent, update_comps) {
        Ok(st) => st,
        Err(_) => unreached(),
    };
    let mut render_comps: Vec<ComputationKind> = Vec::new();
    render_comps.push(ComputationKind::RenderLayers);
    let render = match Stage::new("render".to_owned(), Discipline::Sequential, render_comps) {
        Ok(st) => st,
        Err(_) => unreached(),
    };
    let ghost update_view = update@;
    let ghost render_view = render@;
    let mut stages: Vec<Stage> = Vec::new();
    stages.push(update);
    stages.push(render);
    let s = Schedule::new(stages);
    proof {
        assert(update_view.computations =~= seq![
            ComputationKind::RecomputeStackIndex,
            ComputationKind::ApplyRotation,
        ]);
        assert(render_view.computations =~= seq![ComputationKind::RenderLayers]);
        assert(s@ =~= seq![update_view, render_view]);
        let stages1 = seq![update_view];
        assert(s@.drop_last() =~= stages1);
        assert(stages1.drop_last() =~= Seq::<StageView>::empty());
        assert(sched_comps(Seq::<StageView>::empty()) == Seq::<ComputationKind>::empty());
        assert(sched_comps(stages1) =~= update_view.computations);
        assert(sched_comps(s@) =~= update_view.computations + render_view.computations);
        assert(sched_comps(s@) =~= standard_comps());
    }
    s
}

} // verus!
