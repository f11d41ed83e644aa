//! The stage scheduler: computations are organized into named, ordered
//! stages, each either concurrent or sequential. A concurrent stage is
//! accepted only when no two of its computations conflict on any attribute
//! type: at most one writer, and no reader beside a writer. The check runs
//! at stage construction; a conflicting concurrent stage is never built.

use vstd::prelude::*;
use crate::store::{AttributeKind, EcsError};

verus! {

/// The three computations this system schedules.
#[derive(Clone, Copy, Debug, PartialEq, Eq, Structural)]
pub enum ComputationKind {
    RecomputeStackIndex,
    ApplyRotation,
    RenderLayers,
}

/// Execution discipline of one stage.
#[derive(Clone, Copy, Debug, PartialEq, Eq, Structural)]
pub enum Discipline {
    /// Computations may run in parallel when their access sets allow it.
    Concurrent,
    /// Computations run strictly one after another, in declared order.
    Sequential,
}

/// Whether computation `k` reads the attribute type `a`.
pub open spec fn reads_attr(k: ComputationKind, a: AttributeKind) -> bool {
    match k {
        ComputationKind::RecomputeStackIndex => a == AttributeKind::ParentRef,
        ComputationKind::ApplyRotation => a == AttributeKind::TargetLayer || a
            == AttributeKind::RotationDelta,
        ComputationKind::RenderLayers => a == AttributeKind::LayerName || a
            == AttributeKind::StackIndex || a == AttributeKind::RotationAngle,
    }
}

/// Whether computation `k` writes the attribute type `a`.
pub open spec fn writes_attr(k: ComputationKind, a: AttributeKind) -> bool {
    match k {
        ComputationKind::RecomputeStackIndex => a == AttributeKind::StackIndex,
        ComputationKind::ApplyRotation => a == AttributeKind::RotationAngle,
        ComputationKind::RenderLayers => false,
    }
}

/// Single-writer/multiple-reader exclusion on one attribute type: the two
/// computations clash on `a` when one writes it and the other touches it.
pub open spec fn conflict_at(k1: ComputationKind, k2: ComputationKind, a: AttributeKind) -> bool {
    ||| writes_attr(k1, a) && (writes_attr(k2, a) || reads_attr(k2, a))
    ||| writes_attr(k2, a) && reads_attr(k1, a)
}

/// Whether two computations may not run concurrently: some attribute type
/// is written by one and touched by the other.
pub open spec fn conflicts(k1: ComputationKind, k2: ComputationKind) -> bool {
    exists|a: AttributeKind| conflict_at(k1, k2, a)
}

/// Every attribute type is one of the six declared ones.
proof fn lemma_kind_cases(a: AttributeKind)
    ensures
        a == AttributeKind::LayerName || a == AttributeKind::ParentRef || a
            == AttributeKind::StackIndex || a == AttributeKind::RotationAngle || a
            == AttributeKind::RotationDelta || a == AttributeKind::TargetLayer,
{
    match a {
        AttributeKind::LayerName => {},
        AttributeKind::ParentRef => {},
        AttributeKind::StackIndex => {},
        AttributeKind::RotationAngle => {},
        AttributeKind::RotationDelta => {},
        AttributeKind::TargetLayer => {},
    }
}

/// Whether `k` writes `a`, decided at run time.
fn writes_attr_exec(k: ComputationKind, a: AttributeKind) -> (r: bool)
    ensures
        r == writes_attr(k, a),
{
    match k {
        ComputationKind::RecomputeStackIndex => a == AttributeKind::StackIndex,
        ComputationKind::ApplyRotation => a == AttributeKind::RotationAngle,
        ComputationKind::RenderLayers => false,
    }
}

/// Whether `k` reads `a`, decided at run time.
fn reads_attr_exec(k: ComputationKind, a: AttributeKind) -> (r: bool)
    ensures
        r == reads_attr(k, a),
{
    match k {
        ComputationKind::RecomputeStackIndex => a == AttributeKind::ParentRef,
        ComputationKind::ApplyRotation => a == AttributeKind::TargetLayer || a
            == AttributeKind::RotationDelta,
        ComputationKind::RenderLayers => a == AttributeKind::LayerName || a
            == AttributeKind::StackIndex || a == AttributeKind::RotationAngle,
    }
}

/// Whether the two computations clash on the one attribute type `a`.
fn conflict_at_exec(k1: ComputationKind, k2: ComputationKind, a: AttributeKind) -> (r: bool)
    ensures
        r == conflict_at(k1, k2, a),
{
    (writes_attr_exec(k1, a) && (writes_attr_exec(k2, a) || reads_attr_exec(k2, a)))
        || (writes_attr_exec(k2, a) && reads_attr_exec(k1, a))
}

/// Whether two computations conflict on any attribute type.
pub fn computations_conflict(k1: ComputationKind, k2: ComputationKind) -> (r: bool)
    ensures
        r == conflicts(k1, k2),
{
    if conflict_at_exec(k1, k2, AttributeKind::LayerName) {
        return true;
    }
    if conflict_at_exec(k1, k2, AttributeKind::ParentRef) {
        return true;
    }
    if conflict_at_exec(k1, k2, AttributeKind::StackIndex) {
        return true;
    }
    if conflict_at_exec(k1, k2, AttributeKind::RotationAngle) {
        return true;
    }
    if conflict_at_exec(k1, k2, AttributeKind::RotationDelta) {
        return true;
    }
    if conflict_at_exec(k1, k2, AttributeKind::TargetLayer) {
        return true;
    }
    proof {
        assert forall|a: AttributeKind| !conflict_at(k1, k2, a) by {
            lemma_kind_cases(a);
        }
    }
    false
}

/// Law: the two update computations have disjoint attribute-access sets
/// (one touches parents and stacking orders, the other targets, deltas and
/// angles), so a concurrent stage may hold both.
pub proof fn lemma_update_stage_conflict_free()
    ensures
        !conflicts(ComputationKind::RecomputeStackIndex, ComputationKind::ApplyRotation),
{
    assert forall|a: AttributeKind|
        !conflict_at(
            ComputationKind::RecomputeStackIndex,
            ComputationKind::ApplyRotation,
            a,
        ) by {
        lemma_kind_cases(a);
    }
}

/// The mathematical model of one stage.
pub ghost struct StageView {
    pub name: Seq<char>,
    pub discipline: Discipline,
    pub computations: Seq<ComputationKind>,
}

/// Whether a stage with this discipline and computation list is accepted:
/// a sequential stage always, a concurrent one only with pairwise
/// conflict-free computations.
pub open spec fn stage_ok(discipline: Discipline, comps: Seq<ComputationKind>) -> bool {
    discipline == Discipline::Sequential || forall|i: int, j: int|
        0 <= i < j < comps.len() ==> !(#[trigger] conflicts(comps[i], comps[j]))
}

/// One named, ordered unit of computations under a shared concurrency
/// discipline. Only conflict-free concurrent stages can be constructed.
pub struct Stage {
    name: String,
    discipline: Discipline,
    computations: Vec<ComputationKind>,
}

impl View for Stage {
    type V = StageView;

    closed spec fn view(&self) -> StageView {
        StageView {
            name: self.name@,
            discipline: self.discipline,
            computations: self.computations@,
        }
    }
}

impl Stage {
    /// Builds a stage, rejecting a concurrent stage whose computations
    /// overlap on any attribute type with a writer involved — that is a
    /// configuration error, found here and never silently serialized.
    pub fn new(name: String, discipline: Discipline, computations: Vec<ComputationKind>) -> (r:
        Result<Stage, EcsError>)
        ensures
            stage_ok(discipline, computations@) ==> (r matches Ok(st) && st@ == (StageView {
                name: name@,
                discipline,
                computations: computations@,
            })),
            !stage_ok(discipline, computations@) ==> r == Err::<Stage, EcsError>(
                EcsError::AccessConflict,
            ),
    {
        match discipline {
            Discipline::Sequential => Ok(Stage { name, discipline, computations }),
            Discipline::Concurrent => {
                let n = computations.len();
                let mut i: usize = 0;
                while i < n
                    invariant
                        discipline == Discipline::Concurrent,
                        n == computations@.len(),
                        i <= n,
                        forall|i1: int, j1: int|
                            0 <= i1 < j1 < n && i1 < i ==> !conflicts(
                                computations@[i1],
                                computations@[j1],
                            ),
                    decreases n - i,
                {
                    let mut j: usize = i + 1;
                    while j < n
                        invariant
                            discipline == Discipline::Concurrent,
                            n == computations@.len(),
                            i < j || i + 1 == j,
                            i < n,
                            i + 1 <= j <= n,
                            forall|j1: int|
                                i < j1 < j ==> !conflicts(computations@[i as int], computations@[j1]),
                        decreases n - j,
                    {
                        if computations_conflict(computations[i], computations[j]) {
                            proof {
                                assert(conflicts(computations@[i as int], computations@[j as int]));
                                if stage_ok(discipline, computations@) {
                                    assert(!conflicts(
                                        computations@[i as int],
                                        computations@[j as int],
                                    ));
                                }
                                assert(!stage_ok(discipline, computations@));
                            }
                            return Err(EcsError::AccessConflict);
                        }
                        j = j + 1;
                    }
                    i = i + 1;
                }
                Ok(Stage { name, discipline, computations })
            },
        }
    }

    /// The stage's diagnostic name.
    pub fn name_str(&self) -> (r: &String)
        ensures
            r@ == self@.name,
    {
        &self.name
    }

    /// The stage's declared discipline.
    pub fn discipline(&self) -> (r: Discipline)
        ensures
            r == self@.discipline,
    {
        self.discipline
    }

    /// How many computations the stage holds.
    pub fn computation_count(&self) -> (n: usize)
        ensures
            n == self@.computations.len(),
    {
        self.computations.len()
    }

    /// The `i`-th computation of the stage, in declared order.
    pub fn computation(&self, i: usize) -> (k: ComputationKind)
        requires
            i < self@.computations.len(),
        ensures
            k == self@.computations[i as int],
    {
        self.computations[i]
    }
}

/// The immutable schedule graph: stages in declared execution order.
pub struct Schedule {
    stages: Vec<Stage>,
}

impl View for Schedule {
    type V = Seq<StageView>;

    closed spec fn view(&self) -> Seq<StageView> {
        self.stages@.map_values(|st: Stage| st@)
    }
}

impl Schedule {
    /// Builds the schedule from its stages, already checked one by one.
    pub fn new(stages: Vec<Stage>) -> (s: Schedule)
        ensures
            s@ == stages@.map_values(|st: Stage| st@),
    {
        Schedule { stages }
    }

    /// How many stages the schedule holds.
    pub fn stage_count(&self) -> (n: usize)
        ensures
            n == self@.len(),
    {
        self.stages.len()
    }

    /// The `i`-th stage, in declared order.
    pub fn stage(&self, i: usize) -> (st: &Stage)
        requires
            i < self@.len(),
        ensures
            st@ == self@[i as int],
    {
        &self.stages[i]
    }
}

} // verus!
