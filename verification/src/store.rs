//! The entity store: identity allocation and typed per-entity attribute
//! storage. Attributes are kept in one column per attribute type; an entity
//! is an index valid in every column.
//!
//! Rotation angles and per-tick rotation deltas are kept in fixed point,
//! as signed counts of thousandths of a unit, so that accumulation stays
//! exact and verifiable.

use vstd::prelude::*;

verus! {

/// A stable, unique handle for one entity: an index into the store's columns.
/// Handles stay valid for the lifetime of the store; nothing is removed.
pub type EntityId = usize;

/// The closed set of attribute types an entity may carry.
#[derive(Clone, Copy, Debug, PartialEq, Eq, Structural)]
pub enum AttributeKind {
    /// Diagnostic string label of a layer.
    LayerName,
    /// Optional reference to the parent layer; `None` inside marks a root.
    ParentRef,
    /// Computed stacking order; written each update pass, read by render.
    StackIndex,
    /// Accumulated rotation, in thousandths of a unit.
    RotationAngle,
    /// Per-tick rotation increment of an operation entity, in thousandths.
    RotationDelta,
    /// Reference from an operation entity to the layer it rotates.
    TargetLayer,
}

/// One typed attribute value, the payload of [`Store::attach`].
#[derive(Clone, Debug, PartialEq, Eq)]
pub enum AttributeValue {
    LayerName(String),
    ParentRef(Option<EntityId>),
    StackIndex(u64),
    RotationAngle(i64),
    RotationDelta(i64),
    TargetLayer(EntityId),
}

/// The mathematical model of one attribute value.
pub ghost enum AttributeValueView {
    LayerName(Seq<char>),
    ParentRef(Option<EntityId>),
    StackIndex(u64),
    RotationAngle(i64),
    RotationDelta(i64),
    TargetLayer(EntityId),
}

impl View for AttributeValue {
    type V = AttributeValueView;

    open spec fn view(&self) -> AttributeValueView {
        match self {
            AttributeValue::LayerName(s) => AttributeValueView::LayerName(s@),
            AttributeValue::ParentRef(p) => AttributeValueView::ParentRef(*p),
            AttributeValue::StackIndex(z) => AttributeValueView::StackIndex(*z),
            AttributeValue::RotationAngle(a) => AttributeValueView::RotationAngle(*a),
            AttributeValue::RotationDelta(d) => AttributeValueView::RotationDelta(*d),
            AttributeValue::TargetLayer(t) => AttributeValueView::TargetLayer(*t),
        }
    }
}

/// The failures of the scheduler, each a deterministic function of store
/// and schedule state.
#[derive(Clone, Copy, Debug, PartialEq, Eq, Structural)]
pub enum EcsError {
    /// A direct lookup asked for an attribute the entity does not carry.
    MissingAttribute,
    /// A reference attribute points to no entity carrying what the
    /// computation needs.
    DanglingReference,
    /// Two computations of one concurrent stage have overlapping access,
    /// with at least one writer; found at stage construction.
    AccessConflict,
}

/// The mathematical model of one entity: which attributes it carries and
/// their values.
pub ghost struct RecView {
    pub layer_name: Option<Seq<char>>,
    pub parent_ref: Option<Option<EntityId>>,
    pub stack_index: Option<u64>,
    pub rotation_angle: Option<i64>,
    pub rotation_delta: Option<i64>,
    pub target_layer: Option<EntityId>,
}

/// An entity carrying no attributes at all, as `create_entity` makes it.
pub open spec fn empty_rec() -> RecView {
    RecView {
        layer_name: None,
        parent_ref: None,
        stack_index: None,
        rotation_angle: None,
        rotation_delta: None,
        target_layer: None,
    }
}

/// The record `r` with the one attribute named by `v` overwritten.
pub open spec fn with_attr(r: RecView, v: AttributeValue) -> RecView {
    match v {
        AttributeValue::LayerName(s) => RecView { layer_name: Some(s@), ..r },
        AttributeValue::ParentRef(p) => RecView { parent_ref: Some(p), ..r },
        AttributeValue::StackIndex(z) => RecView { stack_index: Some(z), ..r },
        AttributeValue::RotationAngle(a) => RecView { rotation_angle: Some(a), ..r },
        AttributeValue::RotationDelta(d) => RecView { rotation_delta: Some(d), ..r },
        AttributeValue::TargetLayer(t) => RecView { target_layer: Some(t), ..r },
    }
}

/// Whether the record carries the attribute type `k`.
pub open spec fn has_kind(r: RecView, k: AttributeKind) -> bool {
    match k {
        AttributeKind::LayerName => r.layer_name is Some,
        AttributeKind::ParentRef => r.parent_ref is Some,
        AttributeKind::StackIndex => r.stack_index is Some,
        AttributeKind::RotationAngle => r.rotation_angle is Some,
        AttributeKind::RotationDelta => r.rotation_delta is Some,
        AttributeKind::TargetLayer => r.target_layer is Some,
    }
}

/// Whether a carried parent reference of `r` stays below the entity count
/// `n`; a record with no parent attribute, or a root, passes trivially.
pub open spec fn parent_ok(r: RecView, n: int) -> bool {
    match r.parent_ref {
        Some(Some(p)) => p < n,
        _ => true,
    }
}

/// Every parent reference on any entity names an existing entity. This is
/// the structural precondition of the update computations; `attach` keeps
/// it. That a parent is never the entity itself, and that the parent graph
/// is acyclic, are logic preconditions of the caller's setup data, not
/// checked here: no computation traverses the graph, so they do not affect
/// the contracts below.
pub open spec fn parents_in_range(s: Seq<RecView>) -> bool {
    forall|i: int| 0 <= i < s.len() ==> parent_ok(#[trigger] s[i], s.len() as int)
}

/// The entity store. Owns all attribute values; reference attributes are
/// plain `EntityId` keys back into the same store, never owning links.
pub struct Store {
    layer_name: Vec<Option<String>>,
    parent_ref: Vec<Option<Option<EntityId>>>,
    stack_index: Vec<Option<u64>>,
    rotation_angle: Vec<Option<i64>>,
    rotation_delta: Vec<Option<i64>>,
    target_layer: Vec<Option<EntityId>>,
}

impl View for Store {
    type V = Seq<RecView>;

    closed spec fn view(&self) -> Seq<RecView> {
        Seq::new(
            self.layer_name@.len(),
            |i: int|
                RecView {
                    layer_name: match self.layer_name@[i] {
                        Some(s) => Some(s@),
                        None => None,
                    },
                    parent_ref: self.parent_ref@[i],
                    stack_index: self.stack_index@[i],
                    rotation_angle: self.rotation_angle@[i],
                    rotation_delta: self.rotation_delta@[i],
                    target_layer: self.target_layer@[i],
                },
        )
    }
}

impl Store {
    /// Well-formedness: all attribute columns cover the same entities.
    /// Constructors establish it and every method keeps it.
    pub closed spec fn wf(&self) -> bool {
        &&& self.parent_ref@.len() == self.layer_name@.len()
        &&& self.stack_index@.len() == self.layer_name@.len()
        &&& self.rotation_angle@.len() == self.layer_name@.len()
        &&& self.rotation_delta@.len() == self.layer_name@.len()
        &&& self.target_layer@.len() == self.layer_name@.len()
    }

    /// An empty store: no entities, hence no attributes.
    pub fn new() -> (s: Store)
        ensures
            s.wf(),
            s@ =~= Seq::<RecView>::empty(),
    {
        Store {
            layer_name: Vec::new(),
            parent_ref: Vec::new(),
            stack_index: Vec::new(),
            rotation_angle: Vec::new(),
            rotation_delta: Vec::new(),
            target_layer: Vec::new(),
        }
    }

    /// How many entities have been created.
    pub fn entity_count(&self) -> (n: usize)
        requires
            self.wf(),
        ensures
            n == self@.len(),
    {
        self.layer_name.len()
    }

    /// Allocates a fresh entity with no attributes; the handle is the
    /// number of entities created before it, so handles are unique.
    pub fn create_entity(&mut self) -> (e: EntityId)
        requires
            old(self).wf(),
        ensures
            final(self).wf(),
            e == old(self)@.len(),
            final(self)@ =~= old(self)@.push(empty_rec()),
    {
        let e = self.layer_name.len();
        self.layer_name.push(None);
        self.parent_ref.push(None);
        self.stack_index.push(None);
        self.rotation_angle.push(None);
        self.rotation_delta.push(None);
        self.target_layer.push(None);
        e
    }

    /// Associates one typed attribute value with `e`, overwriting any prior
    /// value of the same type; other attribute types of `e` are untouched.
    /// A parent reference must name an existing entity (a root attaches
    /// `ParentRef(None)`); a `TargetLayer` value is not checked here, a
    /// dangling one surfaces later as [`EcsError::DanglingReference`].
    pub fn attach(&mut self, e: EntityId, v: AttributeValue)
        requires
            old(self).wf(),
            e < old(self)@.len(),
            (v matches AttributeValue::ParentRef(Some(p)) ==> p < old(self)@.len()),
        ensures
            final(self).wf(),
            final(self)@ =~= old(self)@.update(e as int, with_attr(old(self)@[e as int], v)),
    {
        match v {
            AttributeValue::LayerName(s) => self.layer_name.set(e, Some(s)),
            AttributeValue::ParentRef(p) => self.parent_ref.set(e, Some(p)),
            AttributeValue::StackIndex(z) => self.stack_index.set(e, Some(z)),
            AttributeValue::RotationAngle(a) => self.rotation_angle.set(e, Some(a)),
            AttributeValue::RotationDelta(d) => self.rotation_delta.set(e, Some(d)),
            AttributeValue::TargetLayer(t) => self.target_layer.set(e, Some(t)),
        }
    }

    /// Typed lookup of one attribute of `e`: `None` when the entity does
    /// not exist or does not carry the attribute, never a crash.
    pub fn get(&self, e: EntityId, kind: AttributeKind) -> (r: Option<AttributeValue>)
        requires
            self.wf(),
        ensures
            r is Some <==> e < self@.len() && has_kind(self@[e as int], kind),
            r matches Some(v) ==> v@ == spec_get(self@[e as int], kind),
    {
        if e >= self.layer_name.len() {
            return None;
        }
        match kind {
            AttributeKind::LayerName => match &self.layer_name[e] {
                Some(s) => Some(AttributeValue::LayerName(s.clone())),
                None => None,
            },
            AttributeKind::ParentRef => match self.parent_ref[e] {
                Some(p) => Some(AttributeValue::ParentRef(p)),
                None => None,
            },
            AttributeKind::StackIndex => match self.stack_index[e] {
                Some(z) => Some(AttributeValue::StackIndex(z)),
                None => None,
            },
            AttributeKind::RotationAngle => match self.rotation_angle[e] {
                Some(a) => Some(AttributeValue::RotationAngle(a)),
                None => None,
            },
            AttributeKind::RotationDelta => match self.rotation_delta[e] {
                Some(d) => Some(AttributeValue::RotationDelta(d)),
                None => None,
            },
            AttributeKind::TargetLayer => match self.target_layer[e] {
                Some(t) => Some(AttributeValue::TargetLayer(t)),
                None => None,
            },
        }
    }

    /// Direct lookup that demands presence: the explicit
    /// [`EcsError::MissingAttribute`] result where [`Store::get`] is `None`.
    pub fn fetch(&self, e: EntityId, kind: AttributeKind) -> (r: Result<AttributeValue, EcsError>)
        requires
            self.wf(),
        ensures
            r is Ok <==> e < self@.len() && has_kind(self@[e as int], kind),
            r matches Ok(v) ==> v@ == spec_get(self@[e as int], kind),
            r is Err ==> r == Err::<AttributeValue, EcsError>(EcsError::MissingAttribute),
    {
        match self.get(e, kind) {
            Some(v) => Ok(v),
            None => Err(EcsError::MissingAttribute),
        }
    }

    /// Whether entity `e` carries the attribute type `k`.
    pub fn kind_present(&self, e: EntityId, k: AttributeKind) -> (r: bool)
        requires
            self.wf(),
            e < self@.len(),
        ensures
            r == has_kind(self@[e as int], k),
    {
        match k {
            AttributeKind::LayerName => self.layer_name[e].is_some(),
            AttributeKind::ParentRef => self.parent_ref[e].is_some(),
            AttributeKind::StackIndex => self.stack_index[e].is_some(),
            AttributeKind::RotationAngle => self.rotation_angle[e].is_some(),
            AttributeKind::RotationDelta => self.rotation_delta[e].is_some(),
            AttributeKind::TargetLayer => self.target_layer[e].is_some(),
        }
    }

    /// The parent attribute of `e`: `None` when absent, `Some(None)` for a
    /// root, `Some(Some(p))` for a child of `p`.
    pub fn parent_of(&self, e: EntityId) -> (r: Option<Option<EntityId>>)
        requires
            self.wf(),
            e < self@.len(),
        ensures
            r == self@[e as int].parent_ref,
    {
        self.parent_ref[e]
    }

    /// The stacking order of `e`, when computed.
    pub fn stack_index_of(&self, e: EntityId) -> (r: Option<u64>)
        requires
            self.wf(),
            e < self@.len(),
        ensures
            r == self@[e as int].stack_index,
    {
        self.stack_index[e]
    }

    /// The accumulated rotation of `e`, in thousandths of a unit.
    pub fn rotation_angle_of(&self, e: EntityId) -> (r: Option<i64>)
        requires
            self.wf(),
            e < self@.len(),
        ensures
            r == self@[e as int].rotation_angle,
    {
        self.rotation_angle[e]
    }

    /// The per-tick rotation increment of `e`, in thousandths of a unit.
    pub fn rotation_delta_of(&self, e: EntityId) -> (r: Option<i64>)
        requires
            self.wf(),
            e < self@.len(),
        ensures
            r == self@[e as int].rotation_delta,
    {
        self.rotation_delta[e]
    }

    /// The layer entity an operation entity `e` targets.
    pub fn target_of(&self, e: EntityId) -> (r: Option<EntityId>)
        requires
            self.wf(),
            e < self@.len(),
        ensures
            r == self@[e as int].target_layer,
    {
        self.target_layer[e]
    }

    /// The layer name of `e`, when present.
    pub fn layer_name_of(&self, e: EntityId) -> (r: Option<String>)
        requires
            self.wf(),
            e < self@.len(),
        ensures
            r is Some <==> self@[e as int].layer_name is Some,
            r matches Some(s) ==> self@[e as int].layer_name == Some(s@),
    {
        match &self.layer_name[e] {
            Some(s) => Some(s.clone()),
            None => None,
        }
    }
}

/// What [`Store::get`] returns of a record that carries the requested
/// attribute type: the carried value.
pub open spec fn spec_get(r: RecView, kind: AttributeKind) -> AttributeValueView {
    match kind {
        AttributeKind::LayerName => AttributeValueView::LayerName(r.layer_name->Some_0),
        AttributeKind::ParentRef => AttributeValueView::ParentRef(r.parent_ref->Some_0),
        AttributeKind::StackIndex => AttributeValueView::StackIndex(r.stack_index->Some_0),
        AttributeKind::RotationAngle => AttributeValueView::RotationAngle(
            r.rotation_angle->Some_0,
        ),
        AttributeKind::RotationDelta => AttributeValueView::RotationDelta(
            r.rotation_delta->Some_0,
        ),
        AttributeKind::TargetLayer => AttributeValueView::TargetLayer(r.target_layer->Some_0),
    }
}

} // verus!
