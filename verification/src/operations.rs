//! The batch interpreter: an ordered list of operations executed strictly
//! in sequence, where later operations may reference entities created by
//! earlier operations of the same batch through placeholders.
//!
//! Each operation is atomic on its own; the batch is not.  When an
//! operation fails, the effects of the earlier operations stand and the
//! failure is reported to the caller.

use vstd::prelude::*;

use crate::credentials::CredentialChecker;
use crate::errors::DirectoryError;
use crate::ids::{ClassId, Credential, EntityId, PropertyId, SchemaId};
use crate::permissions::RawOrigin;
use crate::schema::{PropertyValue, PropertyValueView, ScalarValue, ScalarValueView, VecValue,
    VecValueView};
use crate::state::Module;

verus! {

/// An entity named by a batch operation: a concrete id, or the entity
/// created by an earlier operation of the same batch.
#[derive(Clone, Copy, PartialEq, Eq, Structural, Debug)]
pub enum ParametrizedEntity {
    /// The entity created by the operation at this position in the batch.
    InternalEntityJustAdded(u32),
    /// A concrete entity id.
    ExistingEntity(EntityId),
}

/// A property value in a batch operation: a concrete value, or a reference
/// to an entity created earlier in the same batch, or a vector of such
/// references.
#[derive(Clone, PartialEq, Eq, Debug)]
pub enum ParametrizedPropertyValue {
    /// A concrete value.
    PropertyValue(PropertyValue),
    /// A reference to the entity created by the operation at this
    /// position.
    InternalEntityJustAddedById(u32),
    /// A reference vector over concrete and just-created entities, with a
    /// fresh nonce.
    InternalEntityVec(Vec<ParametrizedEntity>),
}

/// Mathematical model of a `ParametrizedPropertyValue`.
pub enum ParametrizedPropertyValueView {
    PropertyValue(PropertyValueView),
    InternalEntityJustAddedById(u32),
    InternalEntityVec(Seq<ParametrizedEntity>),
}

impl View for ParametrizedPropertyValue {
    type V = ParametrizedPropertyValueView;

    open spec fn view(&self) -> ParametrizedPropertyValueView {
        match self {
            ParametrizedPropertyValue::PropertyValue(v) => ParametrizedPropertyValueView::PropertyValue(
                v@,
            ),
            ParametrizedPropertyValue::InternalEntityJustAddedById(i) => ParametrizedPropertyValueView::InternalEntityJustAddedById(
                *i,
            ),
            ParametrizedPropertyValue::InternalEntityVec(v) => ParametrizedPropertyValueView::InternalEntityVec(
                v@,
            ),
        }
    }
}

impl DeepView for ParametrizedPropertyValue {
    type V = ParametrizedPropertyValueView;

    open spec fn deep_view(&self) -> ParametrizedPropertyValueView {
        self.view()
    }
}

/// One property assignment of a batch operation.
#[derive(Clone, PartialEq, Eq, Debug)]
pub struct ParametrizedClassPropertyValue {
    pub in_class_index: PropertyId,
    pub value: ParametrizedPropertyValue,
}

/// Mathematical model of a `ParametrizedClassPropertyValue`.
pub struct ParametrizedClassPropertyValueView {
    pub in_class_index: PropertyId,
    pub value: ParametrizedPropertyValueView,
}

impl View for ParametrizedClassPropertyValue {
    type V = ParametrizedClassPropertyValueView;

    open spec fn view(&self) -> ParametrizedClassPropertyValueView {
        ParametrizedClassPropertyValueView { in_class_index: self.in_class_index, value: self.value@ }
    }
}

impl DeepView for ParametrizedClassPropertyValue {
    type V = ParametrizedClassPropertyValueView;

    open spec fn deep_view(&self) -> ParametrizedClassPropertyValueView {
        self.view()
    }
}

/// Creates an entity of a class.
#[derive(Clone, Copy, PartialEq, Eq, Structural, Debug)]
pub struct CreateEntityOperation {
    pub class_id: ClassId,
}

/// Updates property values on an entity.
#[derive(Clone, PartialEq, Eq, Debug)]
pub struct UpdatePropertyValuesOperation {
    pub entity_id: ParametrizedEntity,
    pub new_parametrized_property_values: Vec<ParametrizedClassPropertyValue>,
}

/// Adopts a schema on an entity.
#[derive(Clone, PartialEq, Eq, Debug)]
pub struct AddSchemaSupportToEntityOperation {
    pub entity_id: ParametrizedEntity,
    pub schema_id: SchemaId,
    pub parametrized_property_values: Vec<ParametrizedClassPropertyValue>,
}

/// The kinds of operation a batch can hold.
#[derive(Clone, PartialEq, Eq, Debug)]
pub enum OperationType {
    CreateEntity(CreateEntityOperation),
    UpdatePropertyValues(UpdatePropertyValuesOperation),
    AddSchemaSupportToEntity(AddSchemaSupportToEntityOperation),
}

/// One batch operation, with the credential and maintainer flag it derives
/// its own access level from.
#[derive(Clone, PartialEq, Eq, Debug)]
pub struct Operation {
    pub with_credential: Option<Credential>,
    pub as_entity_maintainer: bool,
    pub operation_type: OperationType,
}

/// What a placeholder resolves to against the entities created so far.
pub open spec fn spec_resolve_entity(
    created: Seq<Option<EntityId>>,
    pe: ParametrizedEntity,
) -> Result<EntityId, DirectoryError> {
    match pe {
        ParametrizedEntity::ExistingEntity(id) => Ok(id),
        ParametrizedEntity::InternalEntityJustAdded(op) => if op < created.len() && created[
            op as int
        ] is Some {
            Ok(created[op as int]->Some_0)
        } else {
            Err(DirectoryError::UnresolvedEntityReference)
        },
    }
}

/// Resolves the entity a batch operation targets: either a concrete id,
/// or the entity created by an earlier operation of the same batch.
pub fn parametrized_entity_to_entity_id(
    created: &Vec<Option<EntityId>>,
    pe: &ParametrizedEntity,
) -> (r: Result<EntityId, DirectoryError>)
    ensures
        r == spec_resolve_entity(created.deep_view(), *pe),
{
    match pe {
        ParametrizedEntity::ExistingEntity(id) => Ok(*id),
        ParametrizedEntity::InternalEntityJustAdded(op) => {
            if (*op as usize) < created.len() {
                match &created[*op as usize] {
                    Some(id) => Ok(*id),
                    None => Err(DirectoryError::UnresolvedEntityReference),
                }
            } else {
                Err(DirectoryError::UnresolvedEntityReference)
            }
        },
    }
}

/// The reference list a placeholder vector resolves to.
pub open spec fn spec_resolve_ref_vec(
    created: Seq<Option<EntityId>>,
    refs: Seq<ParametrizedEntity>,
    j: int,
) -> Result<Seq<EntityId>, DirectoryError>
    decreases refs.len() - j,
{
    if j < 0 || j >= refs.len() {
        Ok(Seq::empty())
    } else {
        match spec_resolve_entity(created, refs[j]) {
            Err(e) => Err(e),
            Ok(id) => match spec_resolve_ref_vec(created, refs, j + 1) {
                Err(e) => Err(e),
                Ok(rest) => Ok(seq![id] + rest),
            },
        }
    }
}

/// The value a parametrized value resolves to: a concrete value stands, a
/// placeholder becomes a reference, and a placeholder vector becomes a
/// reference vector with a fresh nonce.
pub open spec fn spec_resolve_value(
    created: Seq<Option<EntityId>>,
    v: ParametrizedPropertyValueView,
) -> Result<PropertyValueView, DirectoryError> {
    match v {
        ParametrizedPropertyValueView::PropertyValue(pv) => Ok(pv),
        ParametrizedPropertyValueView::InternalEntityJustAddedById(op) => match spec_resolve_entity(
            created,
            ParametrizedEntity::InternalEntityJustAdded(op),
        ) {
            Ok(id) => Ok(PropertyValueView::Single(ScalarValueView::Reference(id))),
            Err(e) => Err(e),
        },
        ParametrizedPropertyValueView::InternalEntityVec(refs) => match spec_resolve_ref_vec(
            created,
            refs,
            0,
        ) {
            Ok(ids) => Ok(PropertyValueView::Vector(VecValueView::Reference(ids), 0)),
            Err(e) => Err(e),
        },
    }
}

/// The first resolution error among the entries at or after `k`.
pub open spec fn first_resolve_error(
    created: Seq<Option<EntityId>>,
    entries: Seq<ParametrizedClassPropertyValueView>,
    k: int,
) -> Option<DirectoryError>
    decreases entries.len() - k,
{
    if k < 0 || k >= entries.len() {
        None
    } else {
        match spec_resolve_value(created, entries[k].value) {
            Err(e) => Some(e),
            Ok(_) => first_resolve_error(created, entries, k + 1),
        }
    }
}

/// The resolved entries, meaningful when nothing fails to resolve.
pub open spec fn resolved_values(
    created: Seq<Option<EntityId>>,
    entries: Seq<ParametrizedClassPropertyValueView>,
) -> Seq<(PropertyId, PropertyValueView)> {
    Seq::new(
        entries.len(),
        |k: int| (entries[k].in_class_index, spec_resolve_value(created, entries[k].value)->Ok_0),
    )
}

/// Resolves every parametrized property value of a batch operation against
/// the entities created so far.
#[verifier::loop_isolation(false)]
pub fn parametrized_property_values_to_property_values(
    created: &Vec<Option<EntityId>>,
    values: &Vec<ParametrizedClassPropertyValue>,
) -> (r: Result<Vec<(PropertyId, PropertyValue)>, DirectoryError>)
    ensures
        match r {
            Ok(out) => first_resolve_error(created.deep_view(), values.deep_view(), 0) is None
                && out.deep_view() == resolved_values(created.deep_view(), values.deep_view()),
            Err(e) => Some(e) == first_resolve_error(created.deep_view(), values.deep_view(), 0),
        },
{
    let ghost cdv = created.deep_view();
    let ghost entries = values.deep_view();
    let mut out: Vec<(PropertyId, PropertyValue)> = Vec::new();
    let mut k: usize = 0;
    while k < values.len()
        invariant
            k <= values@.len(),
            out@.len() == k,
            first_resolve_error(cdv, entries, 0) == first_resolve_error(cdv, entries, k as int),
            forall|j: int|
                0 <= j < k ==> #[trigger] out@[j].deep_view() == (
                entries[j].in_class_index,
                spec_resolve_value(cdv, entries[j].value)->Ok_0,
            ),
        decreases values@.len() - k,
    {
        let entry = &values[k];
        proof {
            assert(entries[k as int] == entry@);
        }
        let resolved: PropertyValue = match &entry.value {
            ParametrizedPropertyValue::PropertyValue(pv) => pv.duplicate(),
            ParametrizedPropertyValue::InternalEntityJustAddedById(op) => {
                let id = match parametrized_entity_to_entity_id(
                    created,
                    &ParametrizedEntity::InternalEntityJustAdded(*op),
                ) {
                    Ok(id) => id,
                    Err(e) => {
                        return Err(e);
                    },
                };
                PropertyValue::Single(ScalarValue::Reference(id))
            },
            ParametrizedPropertyValue::InternalEntityVec(refs) => {
                let ids = match resolve_ref_vec(created, refs, 0) {
                    Ok(ids) => ids,
                    Err(e) => {
                        return Err(e);
                    },
                };
                PropertyValue::Vector(VecValue::Reference(ids), 0)
            },
        };
        proof {
            if spec_resolve_value(cdv, entries[k as int].value) is Err {
                assert(false);
            }
            assert(resolved@ == spec_resolve_value(cdv, entries[k as int].value)->Ok_0);
        }
        out.push((entry.in_class_index, resolved));
        k += 1;
    }
    proof {
        assert(out.deep_view() =~= resolved_values(cdv, entries));
    }
    Ok(out)
}


/// Resolves a placeholder reference vector, from position `j` on.
fn resolve_ref_vec(
    created: &Vec<Option<EntityId>>,
    refs: &Vec<ParametrizedEntity>,
    j: usize,
) -> (r: Result<Vec<EntityId>, DirectoryError>)
    requires
        j <= refs@.len(),
    ensures
        match r {
            Ok(out) => spec_resolve_ref_vec(created.deep_view(), refs@, j as int) == Ok::<
                Seq<EntityId>,
                DirectoryError,
            >(out@),
            Err(e) => spec_resolve_ref_vec(created.deep_view(), refs@, j as int) == Err::<
                Seq<EntityId>,
                DirectoryError,
            >(e),
        },
    decreases refs@.len() - j,
{
    if j == refs.len() {
        let out: Vec<EntityId> = Vec::new();
        proof {
            assert(out@ =~= Seq::<EntityId>::empty());
        }
        Ok(out)
    } else {
        let id = parametrized_entity_to_entity_id(created, &refs[j])?;
        let mut rest = resolve_ref_vec(created, refs, j + 1)?;
        let ghost restv = rest@;
        let mut out: Vec<EntityId> = Vec::new();
        out.push(id);
        out.append(&mut rest);
        proof {
            assert(out@ =~= seq![id] + restv);
        }
        Ok(out)
    }
}

/// One batch operation's full behavior: the entity it names and the
/// values it carries must resolve against the entities created so far,
/// and the resolved call then behaves exactly as the corresponding
/// credentialed operation.  `slot` is the created-entity record the batch
/// keeps for this position: the new entity's id for a successful creation,
/// and nothing otherwise.
pub open spec fn batch_op_rel<C: CredentialChecker>(
    pre: Module,
    post: Module,
    checker: C,
    origin: RawOrigin,
    op: Operation,
    created: Seq<Option<EntityId>>,
    slot: Option<EntityId>,
    outcome: Result<(), DirectoryError>,
) -> bool {
    match op.operation_type {
        OperationType::CreateEntity(create) => {
            &&& (outcome is Ok ==> slot == Some(pre.entities@.len() as u64)
                && crate::lifecycle::spec_create_rel(
                pre,
                post,
                checker,
                origin,
                op.with_credential,
                create.class_id,
                Ok(pre.entities@.len() as u64),
            ))
            &&& (outcome is Err ==> slot is None && crate::lifecycle::spec_create_rel(
                pre,
                post,
                checker,
                origin,
                op.with_credential,
                create.class_id,
                Err(outcome->Err_0),
            ))
        },
        OperationType::UpdatePropertyValues(update) => {
            &&& slot is None
            &&& match spec_resolve_entity(created, update.entity_id) {
                Err(e) => outcome == Err::<(), DirectoryError>(e) && post == pre,
                Ok(eid) => match first_resolve_error(
                    created,
                    update.new_parametrized_property_values.deep_view(),
                    0,
                ) {
                    Some(e) => outcome == Err::<(), DirectoryError>(e) && post == pre,
                    None => crate::value_ops::spec_update_rel(
                        pre,
                        post,
                        checker,
                        origin,
                        op.with_credential,
                        op.as_entity_maintainer,
                        eid,
                        resolved_values(created, update.new_parametrized_property_values.deep_view()),
                        outcome,
                    ),
                },
            }
        },
        OperationType::AddSchemaSupportToEntity(add) => {
            &&& slot is None
            &&& match spec_resolve_entity(created, add.entity_id) {
                Err(e) => outcome == Err::<(), DirectoryError>(e) && post == pre,
                Ok(eid) => match first_resolve_error(
                    created,
                    add.parametrized_property_values.deep_view(),
                    0,
                ) {
                    Some(e) => outcome == Err::<(), DirectoryError>(e) && post == pre,
                    None => crate::value_ops::spec_adopt_rel(
                        pre,
                        post,
                        checker,
                        origin,
                        op.with_credential,
                        op.as_entity_maintainer,
                        eid,
                        add.schema_id,
                        resolved_values(created, add.parametrized_property_values.deep_view()),
                        outcome,
                    ),
                },
            }
        },
    }
}

/// How a batch run from position `k` relates the store before and after:
/// the batch succeeds when every remaining operation succeeds in turn,
/// each against the state and created-entity record the previous ones
/// left; and when an operation fails, the effects of the operations before
/// it stand, nothing later runs, and its error is returned.  This is the
/// documented partial-commit semantics.
pub open spec fn batch_rel<C: CredentialChecker>(
    pre: Module,
    post: Module,
    checker: C,
    origin: RawOrigin,
    ops: Seq<Operation>,
    created: Seq<Option<EntityId>>,
    k: int,
    r: Result<(), DirectoryError>,
) -> bool
    decreases ops.len() - k,
{
    if k < 0 || k >= ops.len() {
        r is Ok && post == pre
    } else {
        exists|mid: Module, slot: Option<EntityId>, outcome: Result<(), DirectoryError>|
            #![trigger batch_op_rel(pre, mid, checker, origin, ops[k], created, slot, outcome)]
            batch_op_rel(pre, mid, checker, origin, ops[k], created, slot, outcome) && (
            if outcome is Ok {
                batch_rel(mid, post, checker, origin, ops, created.push(slot), k + 1, r)
            } else {
                r == Err::<(), DirectoryError>(outcome->Err_0) && post == mid
            })
    }
}

impl Module {
    /// Runs an ordered batch of operations.  Execution is strictly
    /// sequential: each operation derives its own access level and runs
    /// its own checks, and placeholders resolve against the entities
    /// created by earlier operations of this batch.  Each operation is
    /// atomic; the batch is not: when the operation at some position
    /// fails, the effects of the earlier operations stand and that
    /// operation's error is returned.
    #[verifier::loop_isolation(false)]
    pub fn transaction<C: CredentialChecker>(
        &mut self,
        checker: &C,
        raw_origin: &RawOrigin,
        operations: Vec<Operation>,
    ) -> (r: Result<(), DirectoryError>)
        requires
            old(self).inv(),
        ensures
            final(self).inv(),
            *raw_origin is Unsigned ==> r == Err::<(), DirectoryError>(
                DirectoryError::ExpectedRootOrSigned,
            ) && *final(self) == *old(self),
            !(*raw_origin is Unsigned) ==> batch_rel(
                *old(self),
                *final(self),
                *checker,
                *raw_origin,
                operations@,
                Seq::empty(),
                0,
                r,
            ),
    {
        Module::ensure_root_or_signed(raw_origin)?;
        let ghost m0 = *old(self);
        let mut created: Vec<Option<EntityId>> = Vec::new();
        let mut op_index: usize = 0;
        proof {
            assert(created.deep_view() =~= Seq::<Option<EntityId>>::empty());
        }
        while op_index < operations.len()
            invariant
                self.inv(),
                op_index <= operations@.len(),
                forall|post2: Module, r2: Result<(), DirectoryError>|
                    batch_rel(
                        *self,
                        post2,
                        *checker,
                        *raw_origin,
                        operations@,
                        created.deep_view(),
                        op_index as int,
                        r2,
                    ) ==> #[trigger] batch_rel(
                        m0,
                        post2,
                        *checker,
                        *raw_origin,
                        operations@,
                        Seq::empty(),
                        0,
                        r2,
                    ),
            decreases operations@.len() - op_index,
        {
            let ghost entry = *self;
            let ghost created0 = created.deep_view();
            let operation = &operations[op_index];
            proof {
                assert(operations@[op_index as int] == *operation);
            }
            let ghost slot_val: Option<EntityId>;
            let ghost outcome: Result<(), DirectoryError>;
            match &operation.operation_type {
                OperationType::CreateEntity(create) => {
                    match self.do_create_entity(
                        checker,
                        raw_origin,
                        operation.with_credential,
                        create.class_id,
                    ) {
                        Ok(entity_id) => {
                            created.push(Some(entity_id));
                            proof {
                                slot_val = Some(entity_id);
                                outcome = Ok(());
                                assert(created.deep_view() =~= created0.push(Some(entity_id)));
                            }
                        },
                        Err(e) => {
                            proof {
                                assert(batch_op_rel(
                                    entry,
                                    *self,
                                    *checker,
                                    *raw_origin,
                                    operations@[op_index as int],
                                    created0,
                                    None,
                                    Err::<(), DirectoryError>(e),
                                ));
                                assert(batch_rel(
                                    entry,
                                    *self,
                                    *checker,
                                    *raw_origin,
                                    operations@,
                                    created0,
                                    op_index as int,
                                    Err::<(), DirectoryError>(e),
                                ));
                            }
                            return Err(e);
                        },
                    }
                },
                OperationType::UpdatePropertyValues(update) => {
                    let entity_id = match parametrized_entity_to_entity_id(
                        &created,
                        &update.entity_id,
                    ) {
                        Ok(id) => id,
                        Err(e) => {
                            proof {
                                assert(batch_op_rel(
                                    entry,
                                    *self,
                                    *checker,
                                    *raw_origin,
                                    operations@[op_index as int],
                                    created0,
                                    None,
                                    Err::<(), DirectoryError>(e),
                                ));
                                assert(batch_rel(
                                    entry,
                                    *self,
                                    *checker,
                                    *raw_origin,
                                    operations@,
                                    created0,
                                    op_index as int,
                                    Err::<(), DirectoryError>(e),
                                ));
                            }
                            return Err(e);
                        },
                    };
                    let property_values = match parametrized_property_values_to_property_values(
                        &created,
                        &update.new_parametrized_property_values,
                    ) {
                        Ok(v) => v,
                        Err(e) => {
                            proof {
                                assert(batch_op_rel(
                                    entry,
                                    *self,
                                    *checker,
                                    *raw_origin,
                                    operations@[op_index as int],
                                    created0,
                                    None,
                                    Err::<(), DirectoryError>(e),
                                ));
                                assert(batch_rel(
                                    entry,
                                    *self,
                                    *checker,
                                    *raw_origin,
                                    operations@,
                                    created0,
                                    op_index as int,
                                    Err::<(), DirectoryError>(e),
                                ));
                            }
                            return Err(e);
                        },
                    };
                    match self.do_update_entity_property_values(
                        checker,
                        raw_origin,
                        operation.with_credential,
                        operation.as_entity_maintainer,
                        entity_id,
                        property_values,
                    ) {
                        Ok(_) => {
                            created.push(None);
                            proof {
                                slot_val = None;
                                outcome = Ok(());
                                assert(created.deep_view() =~= created0.push(None));
                            }
                        },
                        Err(e) => {
                            proof {
                                assert(batch_op_rel(
                                    entry,
                                    *self,
                                    *checker,
                                    *raw_origin,
                                    operations@[op_index as int],
                                    created0,
                                    None,
                                    Err::<(), DirectoryError>(e),
                                ));
                                assert(batch_rel(
                                    entry,
                                    *self,
                                    *checker,
                                    *raw_origin,
                                    operations@,
                                    created0,
                                    op_index as int,
                                    Err::<(), DirectoryError>(e),
                                ));
                            }
                            return Err(e);
                        },
                    }
                },
                OperationType::AddSchemaSupportToEntity(add) => {
                    let entity_id = match parametrized_entity_to_entity_id(&created, &add.entity_id)
                        {
                        Ok(id) => id,
                        Err(e) => {
                            proof {
                                assert(batch_op_rel(
                                    entry,
                                    *self,
                                    *checker,
                                    *raw_origin,
                                    operations@[op_index as int],
                                    created0,
                                    None,
                                    Err::<(), DirectoryError>(e),
                                ));
                                assert(batch_rel(
                                    entry,
                                    *self,
                                    *checker,
                                    *raw_origin,
                                    operations@,
                                    created0,
                                    op_index as int,
                                    Err::<(), DirectoryError>(e),
                                ));
                            }
                            return Err(e);
                        },
                    };
                    let property_values = match parametrized_property_values_to_property_values(
                        &created,
                        &add.parametrized_property_values,
                    ) {
                        Ok(v) => v,
                        Err(e) => {
                            proof {
                                assert(batch_op_rel(
                                    entry,
                                    *self,
                                    *checker,
                                    *raw_origin,
                                    operations@[op_index as int],
                                    created0,
                                    None,
                                    Err::<(), DirectoryError>(e),
                                ));
                                assert(batch_rel(
                                    entry,
                                    *self,
                                    *checker,
                                    *raw_origin,
                                    operations@,
                                    created0,
                                    op_index as int,
                                    Err::<(), DirectoryError>(e),
                                ));
                            }
                            return Err(e);
                        },
                    };
                    match self.do_add_schema_support_to_entity(
                        checker,
                        raw_origin,
                        operation.with_credential,
                        operation.as_entity_maintainer,
                        entity_id,
                        add.schema_id,
                        property_values,
                    ) {
                        Ok(_) => {
                            created.push(None);
                            proof {
                                slot_val = None;
                                outcome = Ok(());
                                assert(created.deep_view() =~= created0.push(None));
                            }
                        },
                        Err(e) => {
                            proof {
                                assert(batch_op_rel(
                                    entry,
                                    *self,
                                    *checker,
                                    *raw_origin,
                                    operations@[op_index as int],
                                    created0,
                                    None,
                                    Err::<(), DirectoryError>(e),
                                ));
                                assert(batch_rel(
                                    entry,
                                    *self,
                                    *checker,
                                    *raw_origin,
                                    operations@,
                                    created0,
                                    op_index as int,
                                    Err::<(), DirectoryError>(e),
                                ));
                            }
                            return Err(e);
                        },
                    }
                },
            }
            proof {
                assert(batch_op_rel(
                    entry,
                    *self,
                    *checker,
                    *raw_origin,
                    operations@[op_index as int],
                    created0,
                    slot_val,
                    outcome,
                ));
                assert(created.deep_view() == created0.push(slot_val));
                assert forall|post2: Module, r2: Result<(), DirectoryError>|
                    batch_rel(
                        *self,
                        post2,
                        *checker,
                        *raw_origin,
                        operations@,
                        created.deep_view(),
                        op_index as int + 1,
                        r2,
                    ) implies #[trigger] batch_rel(
                    m0,
                    post2,
                    *checker,
                    *raw_origin,
                    operations@,
                    Seq::empty(),
                    0,
                    r2,
                ) by {
                    assert(batch_rel(
                        entry,
                        post2,
                        *checker,
                        *raw_origin,
                        operations@,
                        created0,
                        op_index as int,
                        r2,
                    ));
                }
            }
            op_index += 1;
        }
        proof {
            assert(batch_rel(
                *self,
                *self,
                *checker,
                *raw_origin,
                operations@,
                created.deep_view(),
                op_index as int,
                Ok::<(), DirectoryError>(()),
            ));
        }
        Ok(())
    }
}

} // verus!
