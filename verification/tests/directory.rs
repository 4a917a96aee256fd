//! Class, schema and entity lifecycle scenarios.

use content_directory::credentials::{ActorTable, CredentialSet, CredentialTable,
    NoClassCreationChecker, NoCredentialChecker};
use content_directory::errors::{DirectoryError, ErrorCategory};
use content_directory::ids::InputValidationLengthConstraint;
use content_directory::permissions::{ActorInGroupId, ClassPermissions, EntityCreationLimit,
    RawOrigin};
use content_directory::schema::{Property, PropertyType, ScalarType};
use content_directory::state::Module;

fn lenient() -> InputValidationLengthConstraint {
    InputValidationLengthConstraint::new(1, 49)
}

fn new_module() -> Module {
    Module::new(lenient(), lenient(), lenient(), lenient())
}

fn text(s: &str) -> Vec<u8> {
    s.as_bytes().to_vec()
}

fn prop(name: &str, prop_type: PropertyType, required: bool) -> Property {
    Property { prop_type, required, name: text(name), description: text("a property") }
}

fn admin_perms(credential: u64) -> ClassPermissions {
    let mut perms = ClassPermissions::default();
    perms.admins = CredentialSet::from_vec(vec![credential]);
    perms
}

#[test]
fn create_class_assigns_increasing_ids() {
    let mut m = new_module();
    let checker = NoCredentialChecker {};
    let a = m.create_class(&NoClassCreationChecker {}, &RawOrigin::Root, text("Person"), text("people"), ClassPermissions::default())
        .unwrap();
    let b = m.create_class(&NoClassCreationChecker {}, &RawOrigin::Root, text("Place"), text("places"), ClassPermissions::default())
        .unwrap();
    assert_eq!(a, 0);
    assert_eq!(b, 1);
    assert_eq!(m.classes.len(), 2);
}

#[test]
fn create_class_rejects_unauthorized_and_bad_lengths() {
    let mut m = new_module();
    let checker = NoCredentialChecker {};
    assert_eq!(
        m.create_class(&NoClassCreationChecker {}, &RawOrigin::Signed(7), text("Person"), text("people"), ClassPermissions::default()),
        Err(DirectoryError::NotPermittedToCreateClass)
    );
    assert_eq!(
        m.create_class(&NoClassCreationChecker {}, &RawOrigin::Unsigned, text("Person"), text("people"), ClassPermissions::default()),
        Err(DirectoryError::ExpectedRootOrSigned)
    );
    assert_eq!(
        m.create_class(&NoClassCreationChecker {}, &RawOrigin::Root, text(""), text("people"), ClassPermissions::default()),
        Err(DirectoryError::ClassNameTooShort)
    );
    let long = vec![b'x'; 200];
    assert_eq!(
        m.create_class(&NoClassCreationChecker {}, &RawOrigin::Root, long, text("people"), ClassPermissions::default()),
        Err(DirectoryError::ClassNameTooLong)
    );
    assert_eq!(
        m.create_class(&NoClassCreationChecker {}, &RawOrigin::Root, text("Person"), text(""), ClassPermissions::default()),
        Err(DirectoryError::ClassDescriptionTooShort)
    );
    let long = vec![b'x'; 200];
    assert_eq!(
        m.create_class(&NoClassCreationChecker {}, &RawOrigin::Root, text("Person"), long, ClassPermissions::default()),
        Err(DirectoryError::ClassDescriptionTooLong)
    );
    assert_eq!(
        DirectoryError::NotPermittedToCreateClass.category(),
        ErrorCategory::Permission
    );
}

#[test]
fn schema_ids_count_up_from_zero() {
    let mut m = new_module();
    let checker = NoCredentialChecker {};
    m.create_class(&NoClassCreationChecker {}, &RawOrigin::Root, text("Person"), text("people"), ClassPermissions::default())
        .unwrap();
    let s0 = m
        .append_class_schema(0, vec![], vec![prop("name", PropertyType::Single(ScalarType::Text(40)), true)])
        .unwrap();
    let s1 = m
        .append_class_schema(0, vec![0], vec![prop("age", PropertyType::Single(ScalarType::Uint16), false)])
        .unwrap();
    let s2 = m.append_class_schema(0, vec![0, 1], vec![]).unwrap();
    assert_eq!(s0, 0);
    assert_eq!(s1, 1);
    assert_eq!(s2, 2);
    // New schemas are inactive until activated.
    assert!(!m.classes[0].schemas[0].is_active);
    // Property ids continue the class's property list.
    assert_eq!(m.classes[0].properties.len(), 2);
    assert_eq!(m.classes[0].schemas[1].properties, vec![0, 1]);
}

#[test]
fn append_class_schema_validation_errors() {
    let mut m = new_module();
    let checker = NoCredentialChecker {};
    m.create_class(&NoClassCreationChecker {}, &RawOrigin::Root, text("Person"), text("people"), ClassPermissions::default())
        .unwrap();
    assert_eq!(
        m.append_class_schema(9, vec![], vec![]),
        Err(DirectoryError::ClassNotFound)
    );
    assert_eq!(
        m.append_class_schema(0, vec![], vec![]),
        Err(DirectoryError::NoPropertiesInClassSchema)
    );
    assert_eq!(
        m.append_class_schema(0, vec![], vec![prop("", PropertyType::Single(ScalarType::Bool), false)]),
        Err(DirectoryError::PropertyNameTooShort)
    );
    assert_eq!(
        m.append_class_schema(0, vec![0], vec![]),
        Err(DirectoryError::ClassSchemaRefersUnknownPropertyIndex)
    );
    assert_eq!(
        m.append_class_schema(
            0,
            vec![],
            vec![prop("link", PropertyType::Single(ScalarType::Reference(5)), false)]
        ),
        Err(DirectoryError::ClassSchemaRefersUnknownClass)
    );
    m.append_class_schema(0, vec![], vec![prop("name", PropertyType::Single(ScalarType::Bool), false)])
        .unwrap();
    assert_eq!(
        m.append_class_schema(0, vec![], vec![prop("name", PropertyType::Single(ScalarType::Bool), false)]),
        Err(DirectoryError::PropertyNameNotUniqueInClass)
    );
    // A duplicated existing id appears once in the schema.
    let sid = m.append_class_schema(0, vec![0, 0], vec![]).unwrap();
    assert_eq!(m.classes[0].schemas[sid as usize].properties, vec![0]);
}

#[test]
fn schema_status_update_and_errors() {
    let mut m = new_module();
    let checker = NoCredentialChecker {};
    m.create_class(&NoClassCreationChecker {}, &RawOrigin::Root, text("Person"), text("people"), ClassPermissions::default())
        .unwrap();
    m.append_class_schema(0, vec![], vec![prop("name", PropertyType::Single(ScalarType::Bool), false)])
        .unwrap();
    assert_eq!(
        m.complete_class_schema_status_update(0, 3, true),
        Err(DirectoryError::UnknownClassSchemaId)
    );
    assert_eq!(
        m.complete_class_schema_status_update(7, 0, true),
        Err(DirectoryError::ClassNotFound)
    );
    m.update_class_schema_status(&checker, &RawOrigin::Root, None, 0, 0, true)
        .unwrap();
    assert!(m.classes[0].schemas[0].is_active);
    // A caller without the schema-status permission is rejected.
    assert_eq!(
        m.update_class_schema_status(&checker, &RawOrigin::Signed(3), Some(5), 0, 0, false),
        Err(DirectoryError::OriginCannotActWithRequestedCredential)
    );
}

#[test]
fn person_lifecycle_scenario() {
    // Create class Person with admins = {credential 1}; append a schema
    // with one required text property; activate it; create an entity as an
    // authorized actor; adopt the schema with a supplied value; adopting
    // it again fails.
    let mut m = new_module();
    let checker = CredentialTable { entries: vec![(10, 1)] };
    m.create_class(&NoClassCreationChecker {}, &RawOrigin::Root, text("Person"), text("people"), admin_perms(1))
        .unwrap();
    let sid = m
        .append_class_schema(0, vec![], vec![prop("name", PropertyType::Single(ScalarType::Text(40)), true)])
        .unwrap();
    assert_eq!(sid, 0);
    assert!(!m.classes[0].schemas[0].is_active);
    m.update_class_schema_status(&checker, &RawOrigin::Signed(10), Some(1), 0, 0, true)
        .unwrap();

    m.add_entities_creator(&RawOrigin::Root, 0, 20, EntityCreationLimit::SameAsClass)
        .unwrap();
    let auth = ActorTable { entries: vec![(11, 5, 20)] };
    let entity_id = m
        .create_entity(&auth, &RawOrigin::Signed(11), 0, ActorInGroupId { actor_id: 5, group_id: 20 })
        .unwrap();
    assert_eq!(entity_id, 0);

    let alice = content_directory::schema::PropertyValue::Single(
        content_directory::schema::ScalarValue::Text(text("Alice")),
    );
    m.add_entity_schema_support(0, 0, vec![(0, alice)]).unwrap();
    assert_eq!(m.entities[0].as_ref().unwrap().supported_schemas, vec![0]);

    let alice = content_directory::schema::PropertyValue::Single(
        content_directory::schema::ScalarValue::Text(text("Alice")),
    );
    assert_eq!(
        m.add_entity_schema_support(0, 0, vec![(0, alice)]),
        Err(DirectoryError::SchemaAlreadyAddedToEntity)
    );
}

#[test]
fn adopt_schema_requires_required_values_and_active_schema() {
    let mut m = new_module();
    let checker = NoCredentialChecker {};
    m.create_class(&NoClassCreationChecker {}, &RawOrigin::Root, text("Person"), text("people"), ClassPermissions::default())
        .unwrap();
    m.append_class_schema(
        0,
        vec![],
        vec![
            prop("name", PropertyType::Single(ScalarType::Text(40)), true),
            prop("age", PropertyType::Single(ScalarType::Uint16), false),
        ],
    )
    .unwrap();
    m.add_entities_creator(&RawOrigin::Root, 0, 20, EntityCreationLimit::SameAsClass)
        .unwrap();
    let auth = ActorTable { entries: vec![(11, 5, 20)] };
    m.create_entity(&auth, &RawOrigin::Signed(11), 0, ActorInGroupId { actor_id: 5, group_id: 20 })
        .unwrap();

    // The schema is still inactive.
    assert_eq!(
        m.add_entity_schema_support(0, 0, vec![]),
        Err(DirectoryError::ClassSchemaNotActive)
    );
    m.complete_class_schema_status_update(0, 0, true).unwrap();
    assert_eq!(
        m.add_entity_schema_support(0, 9, vec![]),
        Err(DirectoryError::UnknownClassSchemaId)
    );
    assert_eq!(
        m.add_entity_schema_support(9, 0, vec![]),
        Err(DirectoryError::EntityNotFound)
    );
    // The required property has no supplied value.
    assert_eq!(
        m.add_entity_schema_support(0, 0, vec![]),
        Err(DirectoryError::MissingRequiredProperty)
    );
    // With the required value supplied, the optional one defaults to the
    // boolean-false placeholder.
    let alice = content_directory::schema::PropertyValue::Single(
        content_directory::schema::ScalarValue::Text(text("Alice")),
    );
    m.add_entity_schema_support(0, 0, vec![(0, alice)]).unwrap();
    let values = &m.entities[0].as_ref().unwrap().values;
    assert!(matches!(
        values[1],
        Some(content_directory::schema::PropertyValue::Single(
            content_directory::schema::ScalarValue::Bool(false)
        ))
    ));
}

#[test]
fn entity_creation_caps_fail_with_quota_errors() {
    let mut m = new_module();
    let checker = NoCredentialChecker {};
    let mut perms = ClassPermissions::default();
    perms.maximum_entities_count = 2;
    perms.per_controller_entity_creation_limit = 1;
    m.create_class(&NoClassCreationChecker {}, &RawOrigin::Root, text("Person"), text("people"), perms)
        .unwrap();
    m.add_entities_creator(&RawOrigin::Root, 0, 20, EntityCreationLimit::SameAsClass)
        .unwrap();
    m.add_entities_creator(&RawOrigin::Root, 0, 21, EntityCreationLimit::Individual(5))
        .unwrap();
    let auth = ActorTable { entries: vec![(11, 5, 20), (12, 6, 21)] };
    let a = ActorInGroupId { actor_id: 5, group_id: 20 };
    let b = ActorInGroupId { actor_id: 6, group_id: 21 };

    // First creation under group 20 passes; the voucher (limit 1) then
    // blocks the second.
    m.create_entity(&auth, &RawOrigin::Signed(11), 0, a).unwrap();
    assert_eq!(
        m.create_entity(&auth, &RawOrigin::Signed(11), 0, a),
        Err(DirectoryError::VoucherLimitReached)
    );
    assert_eq!(
        DirectoryError::VoucherLimitReached.category(),
        ErrorCategory::Quota
    );
    // Group 21 may create, up to the class-wide cap of two entities.
    m.create_entity(&auth, &RawOrigin::Signed(12), 0, b).unwrap();
    assert_eq!(
        m.create_entity(&auth, &RawOrigin::Signed(12), 0, b),
        Err(DirectoryError::MaxNumberOfEntitiesPerClassLimitReached)
    );
    // An unauthorized group and an unauthenticated account are rejected.
    assert_eq!(
        m.create_entity(&auth, &RawOrigin::Signed(11), 0, b),
        Err(DirectoryError::ActorInGroupNotAuthenticated)
    );
    let c = ActorInGroupId { actor_id: 9, group_id: 30 };
    let auth2 = ActorTable { entries: vec![(13, 9, 30)] };
    assert_eq!(
        m.create_entity(&auth2, &RawOrigin::Signed(13), 0, c),
        Err(DirectoryError::EntityCreatorDoesNotExist)
    );
}

#[test]
fn creator_and_maintainer_registrations() {
    let mut m = new_module();
    let checker = NoCredentialChecker {};
    m.create_class(&NoClassCreationChecker {}, &RawOrigin::Root, text("Person"), text("people"), ClassPermissions::default())
        .unwrap();
    assert_eq!(
        m.add_entities_creator(&RawOrigin::Signed(1), 0, 20, EntityCreationLimit::SameAsClass),
        Err(DirectoryError::NotRootOrigin)
    );
    assert_eq!(
        m.add_entities_creator(&RawOrigin::Root, 9, 20, EntityCreationLimit::SameAsClass),
        Err(DirectoryError::ClassNotFound)
    );
    m.add_entities_creator(&RawOrigin::Root, 0, 20, EntityCreationLimit::SameAsClass)
        .unwrap();
    assert_eq!(
        m.add_entities_creator(&RawOrigin::Root, 0, 20, EntityCreationLimit::SameAsClass),
        Err(DirectoryError::EntityCreatorAlreadyExists)
    );
    m.remove_entities_creator(&RawOrigin::Root, 0, 20).unwrap();
    assert_eq!(
        m.remove_entities_creator(&RawOrigin::Root, 0, 20),
        Err(DirectoryError::EntityCreatorDoesNotExist)
    );

    m.add_entities_creator(&RawOrigin::Root, 0, 20, EntityCreationLimit::SameAsClass)
        .unwrap();
    let auth = ActorTable { entries: vec![(11, 5, 20)] };
    m.create_entity(&auth, &RawOrigin::Signed(11), 0, ActorInGroupId { actor_id: 5, group_id: 20 })
        .unwrap();
    m.add_entity_maintainer(&RawOrigin::Root, 0, 20).unwrap();
    assert_eq!(
        m.add_entity_maintainer(&RawOrigin::Root, 0, 20),
        Err(DirectoryError::EntityMaintainerAlreadyExists)
    );
    m.remove_entity_maintainer(&RawOrigin::Root, 0, 20).unwrap();
    assert_eq!(
        m.remove_entity_maintainer(&RawOrigin::Root, 0, 20),
        Err(DirectoryError::EntityMaintainerDoesNotExist)
    );
    assert_eq!(
        m.add_entity_maintainer(&RawOrigin::Root, 9, 20),
        Err(DirectoryError::EntityNotFound)
    );
}

#[test]
fn voucher_update_respects_created_count() {
    let mut m = new_module();
    let checker = NoCredentialChecker {};
    m.create_class(&NoClassCreationChecker {}, &RawOrigin::Root, text("Person"), text("people"), ClassPermissions::default())
        .unwrap();
    m.add_entities_creator(&RawOrigin::Root, 0, 20, EntityCreationLimit::Individual(3))
        .unwrap();
    let auth = ActorTable { entries: vec![(11, 5, 20)] };
    m.create_entity(&auth, &RawOrigin::Signed(11), 0, ActorInGroupId { actor_id: 5, group_id: 20 })
        .unwrap();
    let controller = content_directory::permissions::EntityController::Group(20);
    assert_eq!(
        m.update_entity_creation_voucher(&RawOrigin::Root, 0, controller, 0),
        Err(DirectoryError::VoucherLimitBelowCreatedCount)
    );
    m.update_entity_creation_voucher(&RawOrigin::Root, 0, controller, 10)
        .unwrap();
    let other = content_directory::permissions::EntityController::Group(99);
    assert_eq!(
        m.update_entity_creation_voucher(&RawOrigin::Root, 0, other, 10),
        Err(DirectoryError::EntityCreationVoucherDoesNotExist)
    );
}

#[test]
fn class_permission_setters_gate_on_admin() {
    let mut m = new_module();
    let checker = CredentialTable { entries: vec![(10, 1), (11, 2)] };
    m.create_class(&NoClassCreationChecker {}, &RawOrigin::Root, text("Person"), text("people"), admin_perms(1))
        .unwrap();
    m.set_current_block(7);
    // An admin credential may change the create-entities set.
    m.set_class_create_entities_set(
        &checker,
        &RawOrigin::Signed(10),
        Some(1),
        0,
        CredentialSet::from_vec(vec![2]),
    )
    .unwrap();
    assert_eq!(m.classes[0].class_permissions.last_permissions_update, 7);
    // A non-admin credential is rejected.
    assert_eq!(
        m.set_class_create_entities_set(
            &checker,
            &RawOrigin::Signed(11),
            Some(2),
            0,
            CredentialSet::from_vec(vec![3]),
        ),
        Err(DirectoryError::NotInAdminsSet)
    );
    // Only the system may replace the admins set.
    assert_eq!(
        m.set_class_admins(&checker, &RawOrigin::Signed(10), 0, CredentialSet::empty()),
        Err(DirectoryError::NotRootOrigin)
    );
    m.set_class_admins(&checker, &RawOrigin::Root, 0, CredentialSet::empty())
        .unwrap();
    // Blocking creation makes the create-entity rule fail for credentials.
    m.update_class_permissions(&RawOrigin::Root, 0, Some(true), None)
        .unwrap();
    let r = m.do_create_entity(&checker, &RawOrigin::Signed(11), Some(2), 0);
    assert_eq!(r, Err(DirectoryError::EntityCreationBlocked));
}

#[test]
fn entity_permission_updates_are_root_only() {
    let mut m = new_module();
    let checker = NoCredentialChecker {};
    m.create_class(&NoClassCreationChecker {}, &RawOrigin::Root, text("Person"), text("people"), ClassPermissions::default())
        .unwrap();
    m.do_create_entity(&checker, &RawOrigin::Root, None, 0).unwrap();
    let controller = content_directory::permissions::EntityController::Group(20);
    assert_eq!(
        m.update_entity_permissions(&RawOrigin::Signed(1), 0, Some(controller), None),
        Err(DirectoryError::NotRootOrigin)
    );
    m.update_entity_permissions(&RawOrigin::Root, 0, Some(controller), Some(true))
        .unwrap();
    let e = m.entities[0].as_ref().unwrap();
    assert_eq!(e.entity_permission.controller, controller);
    assert!(e.entity_permission.frozen_for_controller);
}
