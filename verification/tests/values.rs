//! Property value updates, vector edits with nonces, reference counting,
//! removal, and the batch interpreter.

use content_directory::constraint::ReferenceConstraint;
use content_directory::credentials::{NoClassCreationChecker, NoCredentialChecker};
use content_directory::errors::{DirectoryError, ErrorCategory};
use content_directory::ids::InputValidationLengthConstraint;
use content_directory::operations::{AddSchemaSupportToEntityOperation, CreateEntityOperation,
    Operation, OperationType, ParametrizedClassPropertyValue, ParametrizedEntity,
    ParametrizedPropertyValue, UpdatePropertyValuesOperation};
use content_directory::permissions::{ClassPermissions, RawOrigin};
use content_directory::schema::{Property, PropertyType, PropertyValue, ScalarType, ScalarValue,
    VecValue};
use content_directory::state::Module;

fn lenient() -> InputValidationLengthConstraint {
    InputValidationLengthConstraint::new(1, 49)
}

fn text(s: &str) -> Vec<u8> {
    s.as_bytes().to_vec()
}

fn prop(name: &str, prop_type: PropertyType, required: bool) -> Property {
    Property { prop_type, required, name: text(name), description: text("a property") }
}

/// A directory with one class whose schema zero is active and declares:
/// property 0 a text, property 1 a vector of unsigned integers, property 2
/// a reference into the class itself, property 3 a reference vector into
/// the class itself; nothing is required.  Two entities of the class exist
/// and both adopted the schema.
fn store_with_two_entities() -> Module {
    let mut m = Module::new(lenient(), lenient(), lenient(), lenient());
    let checker = NoCredentialChecker {};
    m.create_class(&NoClassCreationChecker {}, &RawOrigin::Root, text("Node"), text("nodes"), ClassPermissions::default())
        .unwrap();
    m.append_class_schema(
        0,
        vec![],
        vec![
            prop("label", PropertyType::Single(ScalarType::Text(10)), false),
            prop("marks", PropertyType::Vector(ScalarType::Uint16, 3), false),
            prop("parent", PropertyType::Single(ScalarType::Reference(0)), false),
            prop("links", PropertyType::Vector(ScalarType::Reference(0), 4), false),
        ],
    )
    .unwrap();
    m.complete_class_schema_status_update(0, 0, true).unwrap();
    m.do_create_entity(&checker, &RawOrigin::Root, None, 0).unwrap();
    m.do_create_entity(&checker, &RawOrigin::Root, None, 0).unwrap();
    m.add_entity_schema_support(0, 0, vec![]).unwrap();
    m.add_entity_schema_support(
        1,
        0,
        vec![(1, PropertyValue::Vector(VecValue::Uint16(vec![4, 5]), 0))],
    )
    .unwrap();
    m
}

fn rc(m: &Module, id: u64) -> u32 {
    m.entities[id as usize].as_ref().unwrap().reference_count
}

#[test]
fn update_values_validates_and_counts_references() {
    let mut m = store_with_two_entities();
    assert_eq!(
        m.complete_entity_property_values_update(9, vec![]),
        Err(DirectoryError::EntityNotFound)
    );
    assert_eq!(
        m.complete_entity_property_values_update(
            0,
            vec![(7, PropertyValue::Single(ScalarValue::Bool(true)))]
        ),
        Err(DirectoryError::UnknownEntityPropertyId)
    );
    assert_eq!(
        m.complete_entity_property_values_update(
            0,
            vec![(0, PropertyValue::Single(ScalarValue::Uint16(3)))]
        ),
        Err(DirectoryError::PropertyValueDoNotMatchType)
    );
    assert_eq!(
        m.complete_entity_property_values_update(
            0,
            vec![(0, PropertyValue::Single(ScalarValue::Text(text("far too long a label"))))]
        ),
        Err(DirectoryError::TextPropertyTooLong)
    );
    assert_eq!(
        m.complete_entity_property_values_update(
            0,
            vec![(1, PropertyValue::Vector(VecValue::Uint16(vec![1, 2, 3, 4]), 0))]
        ),
        Err(DirectoryError::VectorPropertyTooLong)
    );
    assert_eq!(
        m.complete_entity_property_values_update(
            0,
            vec![(2, PropertyValue::Single(ScalarValue::Reference(9)))]
        ),
        Err(DirectoryError::ReferencedEntityNotFound)
    );

    // Entity 0 takes a reference to entity 1 and a reference vector
    // holding entity 1 twice: entity 1 is then referenced three times.
    m.complete_entity_property_values_update(
        0,
        vec![
            (0, PropertyValue::Single(ScalarValue::Text(text("alpha")))),
            (2, PropertyValue::Single(ScalarValue::Reference(1))),
            (3, PropertyValue::Vector(VecValue::Reference(vec![1, 1]), 0)),
        ],
    )
    .unwrap();
    assert_eq!(rc(&m, 1), 3);
    assert_eq!(rc(&m, 0), 0);

    // Replacing the scalar reference by a self-reference moves one count.
    m.complete_entity_property_values_update(
        0,
        vec![(2, PropertyValue::Single(ScalarValue::Reference(0)))],
    )
    .unwrap();
    assert_eq!(rc(&m, 1), 2);
    assert_eq!(rc(&m, 0), 1);
}

#[test]
fn removal_respects_reference_counts() {
    let mut m = store_with_two_entities();
    m.complete_entity_property_values_update(
        0,
        vec![(2, PropertyValue::Single(ScalarValue::Reference(1)))],
    )
    .unwrap();
    assert_eq!(rc(&m, 1), 1);

    // A referenced entity cannot be removed.
    assert_eq!(
        m.complete_entity_removal(1),
        Err(DirectoryError::EntityReferenceCounterNotZero)
    );
    assert_eq!(
        DirectoryError::EntityReferenceCounterNotZero.category(),
        ErrorCategory::Integrity
    );
    // Removing the referencing entity releases its outgoing reference, and
    // the target can then be removed.
    m.complete_entity_removal(0).unwrap();
    assert!(m.entities[0].is_none());
    assert_eq!(rc(&m, 1), 0);
    m.complete_entity_removal(1).unwrap();
    assert!(m.entities[1].is_none());
    assert_eq!(
        m.complete_entity_removal(1),
        Err(DirectoryError::EntityNotFound)
    );
    // A self-referencing entity can never be removed: its own value keeps
    // its count positive.
    let checker = NoCredentialChecker {};
    m.do_create_entity(&checker, &RawOrigin::Root, None, 0).unwrap();
    m.add_entity_schema_support(2, 0, vec![]).unwrap();
    m.complete_entity_property_values_update(
        2,
        vec![(2, PropertyValue::Single(ScalarValue::Reference(2)))],
    )
    .unwrap();
    assert_eq!(rc(&m, 2), 1);
    assert_eq!(
        m.complete_entity_removal(2),
        Err(DirectoryError::EntityReferenceCounterNotZero)
    );
}

#[test]
fn vector_edits_advance_the_nonce_and_count_references() {
    let mut m = store_with_two_entities();
    // Entity 1 starts with marks = [4, 5] and nonce 0.
    assert_eq!(
        m.complete_insert_at_entity_property_vector(1, 1, 0, ScalarValue::Uint16(3), 9),
        Err(DirectoryError::VectorNonceMismatch)
    );
    assert_eq!(
        DirectoryError::VectorNonceMismatch.category(),
        ErrorCategory::Concurrency
    );
    assert_eq!(
        m.complete_insert_at_entity_property_vector(1, 1, 5, ScalarValue::Uint16(3), 0),
        Err(DirectoryError::VectorIndexOutOfRange)
    );
    assert_eq!(
        m.complete_insert_at_entity_property_vector(1, 1, 0, ScalarValue::Bool(true), 0),
        Err(DirectoryError::PropertyValueDoNotMatchType)
    );
    assert_eq!(
        m.complete_insert_at_entity_property_vector(1, 0, 0, ScalarValue::Uint16(3), 0),
        Err(DirectoryError::PropertyValueNotAVector)
    );
    m.complete_insert_at_entity_property_vector(1, 1, 0, ScalarValue::Uint16(3), 0)
        .unwrap();
    assert!(matches!(
        &m.entities[1].as_ref().unwrap().values[1],
        Some(PropertyValue::Vector(VecValue::Uint16(v), 1)) if *v == vec![3u16, 4, 5]
    ));
    // The vector is now full: its bound is three.
    assert_eq!(
        m.complete_insert_at_entity_property_vector(1, 1, 0, ScalarValue::Uint16(9), 1),
        Err(DirectoryError::VectorPropertyTooLong)
    );
    // Insert at an index, then remove at the same index with the advanced
    // nonce: the content and length are restored, while the nonce has
    // strictly increased twice and is never reused.
    m.complete_remove_at_entity_property_vector(1, 1, 0, 1).unwrap();
    assert!(matches!(
        &m.entities[1].as_ref().unwrap().values[1],
        Some(PropertyValue::Vector(VecValue::Uint16(v), 2)) if *v == vec![4u16, 5]
    ));
    // A stale nonce is rejected even when the edit would fit the content.
    assert_eq!(
        m.complete_remove_at_entity_property_vector(1, 1, 0, 1),
        Err(DirectoryError::VectorNonceMismatch)
    );

    // Reference vectors charge and release their targets.  Property 3 on
    // entity 0 holds the boolean-false placeholder until a vector value is
    // set.
    assert_eq!(
        m.complete_insert_at_entity_property_vector(0, 3, 0, ScalarValue::Reference(1), 0),
        Err(DirectoryError::PropertyValueNotAVector)
    );
    m.complete_entity_property_values_update(
        0,
        vec![(3, PropertyValue::Vector(VecValue::Reference(vec![]), 0))],
    )
    .unwrap();
    m.complete_insert_at_entity_property_vector(0, 3, 0, ScalarValue::Reference(1), 0)
        .unwrap();
    assert_eq!(rc(&m, 1), 1);
    assert_eq!(
        m.complete_insert_at_entity_property_vector(0, 3, 0, ScalarValue::Reference(9), 1),
        Err(DirectoryError::ReferencedEntityNotFound)
    );
    m.complete_remove_at_entity_property_vector(0, 3, 0, 1).unwrap();
    assert_eq!(rc(&m, 1), 0);
}

#[test]
fn clearing_a_vector_releases_references_and_keeps_the_nonce() {
    let mut m = store_with_two_entities();
    m.complete_entity_property_values_update(
        0,
        vec![(3, PropertyValue::Vector(VecValue::Reference(vec![1, 1, 0]), 0))],
    )
    .unwrap();
    assert_eq!(rc(&m, 1), 2);
    assert_eq!(rc(&m, 0), 1);
    assert_eq!(
        m.complete_entity_property_vector_cleaning(0, 0),
        Err(DirectoryError::PropertyValueNotAVector)
    );
    assert_eq!(
        m.complete_entity_property_vector_cleaning(0, 7),
        Err(DirectoryError::UnknownEntityPropertyId)
    );
    m.complete_entity_property_vector_cleaning(0, 3).unwrap();
    assert_eq!(rc(&m, 1), 0);
    assert_eq!(rc(&m, 0), 0);
    assert!(matches!(
        &m.entities[0].as_ref().unwrap().values[3],
        Some(PropertyValue::Vector(VecValue::Reference(v), 0)) if v.is_empty()
    ));
    // With every referencing value cleared, removal succeeds.
    m.complete_entity_removal(1).unwrap();
    assert!(m.entities[1].is_none());
}

#[test]
fn update_equal_value_is_a_no_change() {
    let mut m = store_with_two_entities();
    // Supplying the placeholder value an optional property already holds
    // passes without validating it against the property type.
    m.complete_entity_property_values_update(
        0,
        vec![(1, PropertyValue::Single(ScalarValue::Bool(false)))],
    )
    .unwrap();
    assert!(matches!(
        &m.entities[0].as_ref().unwrap().values[1],
        Some(PropertyValue::Single(ScalarValue::Bool(false)))
    ));
}

#[test]
fn batch_self_reference_resolves_against_created_entity() {
    let mut m = store_with_two_entities();
    let ops = vec![
        Operation {
            with_credential: None,
            as_entity_maintainer: false,
            operation_type: OperationType::CreateEntity(CreateEntityOperation { class_id: 0 }),
        },
        Operation {
            with_credential: None,
            as_entity_maintainer: false,
            operation_type: OperationType::AddSchemaSupportToEntity(
                AddSchemaSupportToEntityOperation {
                    entity_id: ParametrizedEntity::InternalEntityJustAdded(0),
                    schema_id: 0,
                    parametrized_property_values: vec![],
                },
            ),
        },
        Operation {
            with_credential: None,
            as_entity_maintainer: false,
            operation_type: OperationType::UpdatePropertyValues(UpdatePropertyValuesOperation {
                entity_id: ParametrizedEntity::InternalEntityJustAdded(0),
                new_parametrized_property_values: vec![ParametrizedClassPropertyValue {
                    in_class_index: 2,
                    value: ParametrizedPropertyValue::InternalEntityJustAddedById(0),
                }],
            }),
        },
    ];
    let checker = NoCredentialChecker {};
    m.transaction(&checker, &RawOrigin::Root, ops).unwrap();
    // The created entity references itself exactly once.
    let created = 2u64;
    assert_eq!(rc(&m, created), 1);
    assert!(matches!(
        &m.entities[created as usize].as_ref().unwrap().values[2],
        Some(PropertyValue::Single(ScalarValue::Reference(id))) if *id == created
    ));
}

#[test]
fn batch_self_reference_fails_integrity_under_no_referencing() {
    let mut m = store_with_two_entities();
    let checker = NoCredentialChecker {};
    m.set_class_reference_constraint(
        &checker,
        &RawOrigin::Root,
        None,
        0,
        ReferenceConstraint::NoReferencingAllowed,
    )
    .unwrap();
    let ops = vec![
        Operation {
            with_credential: None,
            as_entity_maintainer: false,
            operation_type: OperationType::CreateEntity(CreateEntityOperation { class_id: 0 }),
        },
        Operation {
            with_credential: None,
            as_entity_maintainer: false,
            operation_type: OperationType::AddSchemaSupportToEntity(
                AddSchemaSupportToEntityOperation {
                    entity_id: ParametrizedEntity::InternalEntityJustAdded(0),
                    schema_id: 0,
                    parametrized_property_values: vec![],
                },
            ),
        },
        Operation {
            with_credential: None,
            as_entity_maintainer: false,
            operation_type: OperationType::UpdatePropertyValues(UpdatePropertyValuesOperation {
                entity_id: ParametrizedEntity::InternalEntityJustAdded(0),
                new_parametrized_property_values: vec![ParametrizedClassPropertyValue {
                    in_class_index: 2,
                    value: ParametrizedPropertyValue::InternalEntityJustAddedById(0),
                }],
            }),
        },
    ];
    assert_eq!(
        m.transaction(&checker, &RawOrigin::Root, ops),
        Err(DirectoryError::EntityCannotReferenceTargetEntity)
    );
    // The batch is not atomic: the first two operations remain committed.
    assert_eq!(m.entities.len(), 3);
    assert_eq!(m.entities[2].as_ref().unwrap().supported_schemas, vec![0]);
    assert_eq!(rc(&m, 2), 0);
}

#[test]
fn batch_rejects_unresolved_placeholders() {
    let mut m = store_with_two_entities();
    let checker = NoCredentialChecker {};
    let ops = vec![Operation {
        with_credential: None,
        as_entity_maintainer: false,
        operation_type: OperationType::UpdatePropertyValues(UpdatePropertyValuesOperation {
            entity_id: ParametrizedEntity::InternalEntityJustAdded(0),
            new_parametrized_property_values: vec![],
        }),
    }];
    assert_eq!(
        m.transaction(&checker, &RawOrigin::Root, ops),
        Err(DirectoryError::UnresolvedEntityReference)
    );
    assert_eq!(
        m.transaction(&checker, &RawOrigin::Unsigned, vec![]),
        Err(DirectoryError::ExpectedRootOrSigned)
    );
    assert_eq!(m.transaction(&checker, &RawOrigin::Root, vec![]), Ok(()));
}

#[test]
fn restricted_constraint_admits_listed_origins_only() {
    let mut m = store_with_two_entities();
    let checker = NoCredentialChecker {};
    // Only property 3 of class 0 may reference entities of class 0.
    m.set_class_reference_constraint(
        &checker,
        &RawOrigin::Root,
        None,
        0,
        ReferenceConstraint::Restricted(vec![content_directory::constraint::PropertyOfClass {
            class_id: 0,
            property_index: 3,
        }]),
    )
    .unwrap();
    assert_eq!(
        m.do_update_entity_property_values(
            &checker,
            &RawOrigin::Root,
            None,
            false,
            0,
            vec![(2, PropertyValue::Single(ScalarValue::Reference(1)))],
        ),
        Err(DirectoryError::EntityCannotReferenceTargetEntity)
    );
    m.do_update_entity_property_values(
        &checker,
        &RawOrigin::Root,
        None,
        false,
        0,
        vec![(3, PropertyValue::Vector(VecValue::Reference(vec![1]), 0))],
    )
    .unwrap();
    assert_eq!(rc(&m, 1), 1);
}

#[test]
fn maintainer_access_gates_entity_updates() {
    let mut m = store_with_two_entities();
    let checker = content_directory::credentials::CredentialTable { entries: vec![(10, 7)] };
    // Nobody recorded credential 7 as maintainer of entity 0 yet.
    assert_eq!(
        m.do_update_entity_property_values(
            &checker,
            &RawOrigin::Signed(10),
            Some(7),
            true,
            0,
            vec![(0, PropertyValue::Single(ScalarValue::Text(text("a"))))],
        ),
        Err(DirectoryError::NotEntityMaintainer)
    );
    // An entity created under a credential records it as maintainer.
    let mut perms = ClassPermissions::default();
    perms.create_entities = content_directory::credentials::CredentialSet::from_vec(vec![7]);
    m.set_class_create_entities_set(
        &checker,
        &RawOrigin::Root,
        None,
        0,
        content_directory::credentials::CredentialSet::from_vec(vec![7]),
    )
    .unwrap_or(());
    let id = m.do_create_entity(&checker, &RawOrigin::Signed(10), Some(7), 0).unwrap();
    m.add_entity_schema_support(id, 0, vec![]).unwrap();
    m.do_update_entity_property_values(
        &checker,
        &RawOrigin::Signed(10),
        Some(7),
        true,
        id,
        vec![(0, PropertyValue::Single(ScalarValue::Text(text("mine"))))],
    )
    .unwrap();
    // Without any credential, an ordinary signed caller is denied.
    let plain = NoCredentialChecker {};
    assert_eq!(
        m.do_update_entity_property_values(
            &plain,
            &RawOrigin::Signed(11),
            None,
            false,
            id,
            vec![(0, PropertyValue::Single(ScalarValue::Text(text("no"))))],
        ),
        Err(DirectoryError::AccessDenied)
    );
}

#[test]
fn text_vectors_validate_element_lengths() {
    let mut m = Module::new(lenient(), lenient(), lenient(), lenient());
    let checker = NoCredentialChecker {};
    m.create_class(&NoClassCreationChecker {}, &RawOrigin::Root, text("Doc"), text("docs"), ClassPermissions::default())
        .unwrap();
    m.append_class_schema(
        0,
        vec![],
        vec![prop("lines", PropertyType::Vector(ScalarType::Text(4), 3), false)],
    )
    .unwrap();
    m.complete_class_schema_status_update(0, 0, true).unwrap();
    m.do_create_entity(&checker, &RawOrigin::Root, None, 0).unwrap();
    m.add_entity_schema_support(0, 0, vec![]).unwrap();
    assert_eq!(
        m.complete_entity_property_values_update(
            0,
            vec![(0, PropertyValue::Vector(VecValue::Text(vec![text("abcde")]), 0))]
        ),
        Err(DirectoryError::TextPropertyTooLong)
    );
    m.complete_entity_property_values_update(
        0,
        vec![(0, PropertyValue::Vector(VecValue::Text(vec![text("ab"), text("cd")]), 0))],
    )
    .unwrap();
    // Inserting a too-long text element is rejected; a fitting one passes.
    assert_eq!(
        m.complete_insert_at_entity_property_vector(0, 0, 0, ScalarValue::Text(text("abcde")), 0),
        Err(DirectoryError::TextPropertyTooLong)
    );
    m.complete_insert_at_entity_property_vector(0, 0, 2, ScalarValue::Text(text("ef")), 0)
        .unwrap();
    assert!(matches!(
        &m.entities[0].as_ref().unwrap().values[0],
        Some(PropertyValue::Vector(VecValue::Text(v), 1)) if v.len() == 3
    ));
}

#[test]
fn recounting_references_matches_the_stored_counters() {
    let mut m = store_with_two_entities();
    m.complete_entity_property_values_update(
        0,
        vec![
            (2, PropertyValue::Single(ScalarValue::Reference(1))),
            (3, PropertyValue::Vector(VecValue::Reference(vec![1, 0, 1]), 0)),
        ],
    )
    .unwrap();
    // The audit recount agrees with every stored counter.
    assert_eq!(m.recomputed_reference_count(0), 1);
    assert_eq!(m.recomputed_reference_count(1), 3);
    assert_eq!(m.recomputed_reference_count(0), rc(&m, 0));
    assert_eq!(m.recomputed_reference_count(1), rc(&m, 1));
    // An id that never named an entity is referenced by nothing.
    assert_eq!(m.recomputed_reference_count(9), 0);
}
