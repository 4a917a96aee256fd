//! Scalar kinds, length constraints, nonce bounds, and the gated removal
//! path.

use content_directory::credentials::{CredentialSet, CredentialTable, NoClassCreationChecker,
    NoCredentialChecker};
use content_directory::errors::{DirectoryError, ErrorCategory};
use content_directory::ids::InputValidationLengthConstraint;
use content_directory::permissions::{ClassPermissions, RawOrigin};
use content_directory::schema::{Property, PropertyType, PropertyValue, ScalarType, ScalarValue,
    VecValue};
use content_directory::state::Module;

fn lenient() -> InputValidationLengthConstraint {
    InputValidationLengthConstraint::new(1, 49)
}

fn text(s: &str) -> Vec<u8> {
    s.as_bytes().to_vec()
}

fn prop(name: &str, prop_type: PropertyType, required: bool) -> Property {
    Property { prop_type, required, name: text(name), description: text("a property") }
}

#[test]
fn length_constraint_bounds_are_inclusive() {
    let c = InputValidationLengthConstraint::new(2, 3);
    assert_eq!(c.max(), 5);
    assert_eq!(c.ensure_valid(1, DirectoryError::ClassNameTooShort, DirectoryError::ClassNameTooLong),
        Err(DirectoryError::ClassNameTooShort));
    assert_eq!(c.ensure_valid(2, DirectoryError::ClassNameTooShort, DirectoryError::ClassNameTooLong),
        Ok(()));
    assert_eq!(c.ensure_valid(5, DirectoryError::ClassNameTooShort, DirectoryError::ClassNameTooLong),
        Ok(()));
    assert_eq!(c.ensure_valid(6, DirectoryError::ClassNameTooShort, DirectoryError::ClassNameTooLong),
        Err(DirectoryError::ClassNameTooLong));
}

#[test]
fn property_description_lengths_are_validated() {
    let mut m = Module::new(lenient(), lenient(), lenient(), lenient());
    m.create_class(&NoClassCreationChecker {}, &RawOrigin::Root, text("Doc"), text("docs"), ClassPermissions::default())
        .unwrap();
    let mut p = prop("name", PropertyType::Single(ScalarType::Bool), false);
    p.description = text("");
    assert_eq!(
        m.append_class_schema(0, vec![], vec![p]),
        Err(DirectoryError::PropertyDescriptionTooShort)
    );
    let mut p = prop("name", PropertyType::Single(ScalarType::Bool), false);
    p.description = vec![b'd'; 200];
    assert_eq!(
        m.append_class_schema(0, vec![], vec![p]),
        Err(DirectoryError::PropertyDescriptionTooLong)
    );
    let mut p = prop("name", PropertyType::Single(ScalarType::Bool), false);
    p.name = vec![b'n'; 200];
    assert_eq!(
        m.append_class_schema(0, vec![], vec![p]),
        Err(DirectoryError::PropertyNameTooLong)
    );
}

#[test]
fn every_scalar_kind_round_trips_through_an_update() {
    let mut m = Module::new(lenient(), lenient(), lenient(), lenient());
    let checker = NoCredentialChecker {};
    m.create_class(&NoClassCreationChecker {}, &RawOrigin::Root, text("Mixed"), text("mixed"), ClassPermissions::default())
        .unwrap();
    m.append_class_schema(
        0,
        vec![],
        vec![
            prop("b", PropertyType::Single(ScalarType::Bool), false),
            prop("u16", PropertyType::Single(ScalarType::Uint16), false),
            prop("u32", PropertyType::Single(ScalarType::Uint32), false),
            prop("u64", PropertyType::Single(ScalarType::Uint64), false),
            prop("i16", PropertyType::Single(ScalarType::Int16), false),
            prop("i32", PropertyType::Single(ScalarType::Int32), false),
            prop("i64", PropertyType::Single(ScalarType::Int64), false),
            prop("bv", PropertyType::Vector(ScalarType::Bool, 4), false),
            prop("iv", PropertyType::Vector(ScalarType::Int64, 4), false),
        ],
    )
    .unwrap();
    m.complete_class_schema_status_update(0, 0, true).unwrap();
    m.do_create_entity(&checker, &RawOrigin::Root, None, 0).unwrap();
    m.add_entity_schema_support(0, 0, vec![]).unwrap();
    m.complete_entity_property_values_update(
        0,
        vec![
            (0, PropertyValue::Single(ScalarValue::Bool(true))),
            (1, PropertyValue::Single(ScalarValue::Uint16(16))),
            (2, PropertyValue::Single(ScalarValue::Uint32(32))),
            (3, PropertyValue::Single(ScalarValue::Uint64(64))),
            (4, PropertyValue::Single(ScalarValue::Int16(-16))),
            (5, PropertyValue::Single(ScalarValue::Int32(-32))),
            (6, PropertyValue::Single(ScalarValue::Int64(-64))),
            (7, PropertyValue::Vector(VecValue::Bool(vec![true, false]), 0)),
            (8, PropertyValue::Vector(VecValue::Int64(vec![-1, 2]), 0)),
        ],
    )
    .unwrap();
    let values = &m.entities[0].as_ref().unwrap().values;
    assert_eq!(values[3], Some(PropertyValue::Single(ScalarValue::Uint64(64))));
    assert_eq!(values[6], Some(PropertyValue::Single(ScalarValue::Int64(-64))));
    assert_eq!(values[7], Some(PropertyValue::Vector(VecValue::Bool(vec![true, false]), 0)));

    // Submitting the very same values again changes nothing, including
    // the vector nonces: equal values are skipped, not re-validated.
    m.complete_entity_property_values_update(
        0,
        vec![
            (7, PropertyValue::Vector(VecValue::Bool(vec![true, false]), 0)),
            (8, PropertyValue::Vector(VecValue::Int64(vec![-1, 2]), 0)),
        ],
    )
    .unwrap();
    let values = &m.entities[0].as_ref().unwrap().values;
    assert_eq!(values[7], Some(PropertyValue::Vector(VecValue::Bool(vec![true, false]), 0)));
    // A mismatched integer width is rejected.
    assert_eq!(
        m.complete_entity_property_values_update(
            0,
            vec![(1, PropertyValue::Single(ScalarValue::Uint32(5)))]
        ),
        Err(DirectoryError::PropertyValueDoNotMatchType)
    );
}

#[test]
fn nonce_at_its_bound_cannot_advance() {
    let mut m = Module::new(lenient(), lenient(), lenient(), lenient());
    let checker = NoCredentialChecker {};
    m.create_class(&NoClassCreationChecker {}, &RawOrigin::Root, text("Doc"), text("docs"), ClassPermissions::default())
        .unwrap();
    m.append_class_schema(0, vec![], vec![prop("v", PropertyType::Vector(ScalarType::Uint16, 4), false)])
        .unwrap();
    m.complete_class_schema_status_update(0, 0, true).unwrap();
    m.do_create_entity(&checker, &RawOrigin::Root, None, 0).unwrap();
    m.add_entity_schema_support(0, 0, vec![]).unwrap();
    m.complete_entity_property_values_update(
        0,
        vec![(0, PropertyValue::Vector(VecValue::Uint16(vec![1]), u64::MAX))],
    )
    .unwrap();
    assert_eq!(
        m.complete_insert_at_entity_property_vector(0, 0, 0, ScalarValue::Uint16(2), u64::MAX),
        Err(DirectoryError::NonceOverflow)
    );
    assert_eq!(
        m.complete_remove_at_entity_property_vector(0, 0, 0, u64::MAX),
        Err(DirectoryError::NonceOverflow)
    );
    // Clearing is not fenced by the nonce and keeps it.
    m.complete_entity_property_vector_cleaning(0, 0).unwrap();
    assert_eq!(
        m.entities[0].as_ref().unwrap().values[0],
        Some(PropertyValue::Vector(VecValue::Uint16(vec![]), u64::MAX))
    );
}

#[test]
fn gated_removal_checks_permissions_then_references() {
    let mut m = Module::new(lenient(), lenient(), lenient(), lenient());
    let checker = CredentialTable { entries: vec![(10, 1), (11, 2)] };
    let mut perms = ClassPermissions::default();
    perms.admins = CredentialSet::from_vec(vec![1]);
    m.create_class(&NoClassCreationChecker {}, &RawOrigin::Root, text("Node"), text("nodes"), perms)
        .unwrap();
    m.do_create_entity(&checker, &RawOrigin::Root, None, 0).unwrap();

    assert_eq!(
        m.remove_entity(&checker, &RawOrigin::Unsigned, None, 0),
        Err(DirectoryError::ExpectedRootOrSigned)
    );
    assert_eq!(
        m.remove_entity(&checker, &RawOrigin::Root, None, 9),
        Err(DirectoryError::EntityNotFound)
    );
    // A signed caller with no credential may not remove entities.
    assert_eq!(
        m.remove_entity(&checker, &RawOrigin::Signed(11), None, 0),
        Err(DirectoryError::AccessDenied)
    );
    // An unproven credential fails before any permission predicate.
    assert_eq!(
        m.remove_entity(&checker, &RawOrigin::Signed(11), Some(1), 0),
        Err(DirectoryError::OriginCannotActWithRequestedCredential)
    );
    // An admin credential passes the remove rule.
    m.remove_entity(&checker, &RawOrigin::Signed(10), Some(1), 0).unwrap();
    assert!(m.entities[0].is_none());
    assert_eq!(
        DirectoryError::EntityNotFound.category(),
        ErrorCategory::NotFound
    );
    assert_eq!(
        DirectoryError::UnknownEntityPropertyId.category(),
        ErrorCategory::Validation
    );
}

#[test]
fn accessors_report_the_stored_state() {
    let mut m = Module::new(lenient(), lenient(), lenient(), lenient());
    let checker = NoCredentialChecker {};
    m.create_class(&NoClassCreationChecker {}, &RawOrigin::Root, text("Node"), text("nodes"), ClassPermissions::default())
        .unwrap();
    assert_eq!(m.ensure_known_class_id(0), Ok(()));
    assert_eq!(m.ensure_known_class_id(1), Err(DirectoryError::ClassNotFound));
    m.append_class_schema(0, vec![], vec![prop("v", PropertyType::Single(ScalarType::Bool), false)])
        .unwrap();
    assert!(!m.classes[0].is_active_schema(0));
    m.do_create_entity(&checker, &RawOrigin::Root, None, 0).unwrap();
    assert_eq!(m.ensure_known_entity_id(0), Ok(()));
    assert_eq!(m.ensure_known_entity_id(3), Err(DirectoryError::EntityNotFound));
    assert_eq!(m.get_class_id_by_entity_id(0), Ok(0));
    assert_eq!(m.ensure_rc_is_zero(0), Ok(()));
    let class = m.class_ref(0);
    assert_eq!(class.get_permissions().maximum_entities_count, u64::MAX);
    let entity = m.entity_ref(0);
    assert_eq!(
        entity.get_entity_permissions().controller,
        content_directory::permissions::EntityController::Unspecified
    );
    assert_eq!(m.entity_creation_vouchers.len(), 0);
}

#[test]
fn gated_entry_points_accept_the_system_origin() {
    let mut m = Module::new(lenient(), lenient(), lenient(), lenient());
    let checker = NoCredentialChecker {};
    m.create_class_with_default_permissions(&NoClassCreationChecker {}, &RawOrigin::Root, text("Node"), text("nodes"))
        .unwrap();
    let sid = m
        .add_class_schema(
            &checker,
            &RawOrigin::Root,
            None,
            0,
            vec![],
            vec![
                prop("marks", PropertyType::Vector(ScalarType::Uint16, 4), false),
                prop("label", PropertyType::Single(ScalarType::Text(8)), false),
            ],
        )
        .unwrap();
    assert_eq!(sid, 0);
    m.update_class_schema_status(&checker, &RawOrigin::Root, None, 0, 0, true).unwrap();
    m.do_create_entity(&checker, &RawOrigin::Root, None, 0).unwrap();
    m.add_schema_support_to_entity(&checker, &RawOrigin::Root, None, false, 0, 0, vec![])
        .unwrap();
    m.update_entity_property_values(
        &checker,
        &RawOrigin::Root,
        None,
        false,
        0,
        vec![(0, PropertyValue::Vector(VecValue::Uint16(vec![7]), 0))],
    )
    .unwrap();
    m.insert_at_entity_property_vector(&checker, &RawOrigin::Root, None, false, 0, 0, 1, ScalarValue::Uint16(9), 0)
        .unwrap();
    m.remove_at_entity_property_vector(&checker, &RawOrigin::Root, None, false, 0, 0, 0, 1)
        .unwrap();
    assert_eq!(
        m.entities[0].as_ref().unwrap().values[0],
        Some(PropertyValue::Vector(VecValue::Uint16(vec![9]), 2))
    );
    m.clear_entity_property_vector(&checker, &RawOrigin::Root, None, false, 0, 0)
        .unwrap();
    assert_eq!(
        m.entities[0].as_ref().unwrap().values[0],
        Some(PropertyValue::Vector(VecValue::Uint16(vec![]), 2))
    );
    // The unsigned origin is rejected at every entry point.
    assert_eq!(
        m.clear_entity_property_vector(&checker, &RawOrigin::Unsigned, None, false, 0, 0),
        Err(DirectoryError::ExpectedRootOrSigned)
    );
    assert_eq!(
        m.update_entity_property_values(&checker, &RawOrigin::Unsigned, None, false, 0, vec![]),
        Err(DirectoryError::ExpectedRootOrSigned)
    );
}

#[test]
fn admin_sets_and_entity_permissions_setters() {
    let mut m = Module::new(lenient(), lenient(), lenient(), lenient());
    let checker = CredentialTable { entries: vec![(10, 1)] };
    let mut perms = ClassPermissions::default();
    perms.admins = CredentialSet::from_vec(vec![1]);
    m.create_class(&NoClassCreationChecker {}, &RawOrigin::Root, text("Node"), text("nodes"), perms)
        .unwrap();
    m.set_class_add_schemas_set(&checker, &RawOrigin::Signed(10), Some(1), 0, CredentialSet::from_vec(vec![4]))
        .unwrap();
    m.set_class_update_schemas_status_set(&checker, &RawOrigin::Signed(10), Some(1), 0, CredentialSet::from_vec(vec![4]))
        .unwrap();
    let ep = content_directory::permissions::EntityPermissions {
        update: CredentialSet::from_vec(vec![4]),
        maintainer_has_all_permissions: false,
    };
    m.set_class_entity_permissions(&checker, &RawOrigin::Signed(10), Some(1), 0, ep).unwrap();
    m.set_class_entities_can_be_created(&checker, &RawOrigin::Signed(10), Some(1), 0, true)
        .unwrap();
    let p = &m.classes[0].class_permissions;
    assert!(p.add_schemas.contains(4));
    assert!(p.update_schemas_status.contains(4));
    assert!(p.entity_permissions.update.contains(4));
    assert!(!p.entity_permissions.maintainer_has_all_permissions);
    assert!(p.entity_creation_blocked);
    assert_eq!(
        m.set_class_add_schemas_set(&checker, &RawOrigin::Signed(10), None, 0, CredentialSet::empty()),
        Err(DirectoryError::NotInAdminsSet)
    );
    assert_eq!(
        m.set_class_add_schemas_set(&checker, &RawOrigin::Signed(10), Some(1), 9, CredentialSet::empty()),
        Err(DirectoryError::ClassNotFound)
    );
}
