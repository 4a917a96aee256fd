//! The error taxonomy: every failing operation reports exactly one of these
//! errors, and each error belongs to one of six categories.

use vstd::prelude::*;

verus! {

/// The six kinds of failure an operation can report.
#[derive(Clone, Copy, PartialEq, Eq, Structural, Debug)]
pub enum ErrorCategory {
    /// An unknown class, entity, schema or property was referenced.
    NotFound,
    /// An input failed a length, type, arity or uniqueness check.
    Validation,
    /// The caller failed a credential proof or a permission predicate.
    Permission,
    /// A vector mutation was issued against a stale nonce.
    Concurrency,
    /// A creation limit was already reached.
    Quota,
    /// A reference constraint or the reference-count guarantee would break.
    Integrity,
}

/// Every error an operation of the directory can return.
#[derive(Clone, Copy, PartialEq, Eq, Structural, Debug)]
pub enum DirectoryError {
    // Unknown references.
    ClassNotFound,
    EntityNotFound,
    ReferencedEntityNotFound,
    EntityCreatorDoesNotExist,
    EntityMaintainerDoesNotExist,
    EntityCreationVoucherDoesNotExist,
    // Invalid input.
    ClassNameTooShort,
    ClassNameTooLong,
    ClassDescriptionTooShort,
    ClassDescriptionTooLong,
    PropertyNameTooShort,
    PropertyNameTooLong,
    PropertyDescriptionTooShort,
    PropertyDescriptionTooLong,
    PropertyNameNotUniqueInClass,
    NoPropertiesInClassSchema,
    ClassSchemaRefersUnknownPropertyIndex,
    ClassSchemaRefersUnknownClass,
    UnknownClassSchemaId,
    ClassSchemaNotActive,
    SchemaAlreadyAddedToEntity,
    MissingRequiredProperty,
    UnknownEntityPropertyId,
    PropertyValueDoNotMatchType,
    TextPropertyTooLong,
    VectorPropertyTooLong,
    PropertyValueNotAVector,
    VectorIndexOutOfRange,
    TooManyReferencesToEntity,
    NonceOverflow,
    VoucherLimitBelowCreatedCount,
    EntityCreatorAlreadyExists,
    EntityMaintainerAlreadyExists,
    UnresolvedEntityReference,
    // Failed permission checks.
    ExpectedRootOrSigned,
    NotPermittedToCreateClass,
    ActorInGroupNotAuthenticated,
    OriginCannotActWithRequestedCredential,
    NotEntityMaintainer,
    NotRootOrigin,
    NotInAdminsSet,
    EntityCreationBlocked,
    AccessDenied,
    // Stale concurrent edits.
    VectorNonceMismatch,
    // Exhausted creation limits.
    VoucherLimitReached,
    MaxNumberOfEntitiesPerClassLimitReached,
    // Broken reference guarantees.
    EntityCannotReferenceTargetEntity,
    EntityReferenceCounterNotZero,
}

impl DirectoryError {
    /// The category an error belongs to.
    pub open spec fn spec_category(self) -> ErrorCategory {
        match self {
            DirectoryError::ClassNotFound => ErrorCategory::NotFound,
            DirectoryError::EntityNotFound => ErrorCategory::NotFound,
            DirectoryError::ReferencedEntityNotFound => ErrorCategory::NotFound,
            DirectoryError::EntityCreatorDoesNotExist => ErrorCategory::NotFound,
            DirectoryError::EntityMaintainerDoesNotExist => ErrorCategory::NotFound,
            DirectoryError::EntityCreationVoucherDoesNotExist => ErrorCategory::NotFound,
            DirectoryError::ClassNameTooShort => ErrorCategory::Validation,
            DirectoryError::ClassNameTooLong => ErrorCategory::Validation,
            DirectoryError::ClassDescriptionTooShort => ErrorCategory::Validation,
            DirectoryError::ClassDescriptionTooLong => ErrorCategory::Validation,
            DirectoryError::PropertyNameTooShort => ErrorCategory::Validation,
            DirectoryError::PropertyNameTooLong => ErrorCategory::Validation,
            DirectoryError::PropertyDescriptionTooShort => ErrorCategory::Validation,
            DirectoryError::PropertyDescriptionTooLong => ErrorCategory::Validation,
            DirectoryError::PropertyNameNotUniqueInClass => ErrorCategory::Validation,
            DirectoryError::NoPropertiesInClassSchema => ErrorCategory::Validation,
            DirectoryError::ClassSchemaRefersUnknownPropertyIndex => ErrorCategory::Validation,
            DirectoryError::ClassSchemaRefersUnknownClass => ErrorCategory::Validation,
            DirectoryError::UnknownClassSchemaId => ErrorCategory::Validation,
            DirectoryError::ClassSchemaNotActive => ErrorCategory::Validation,
            DirectoryError::SchemaAlreadyAddedToEntity => ErrorCategory::Validation,
            DirectoryError::MissingRequiredProperty => ErrorCategory::Validation,
            DirectoryError::UnknownEntityPropertyId => ErrorCategory::Validation,
            DirectoryError::PropertyValueDoNotMatchType => ErrorCategory::Validation,
            DirectoryError::TextPropertyTooLong => ErrorCategory::Validation,
            DirectoryError::VectorPropertyTooLong => ErrorCategory::Validation,
            DirectoryError::PropertyValueNotAVector => ErrorCategory::Validation,
            DirectoryError::VectorIndexOutOfRange => ErrorCategory::Validation,
            DirectoryError::TooManyReferencesToEntity => ErrorCategory::Validation,
            DirectoryError::NonceOverflow => ErrorCategory::Validation,
            DirectoryError::VoucherLimitBelowCreatedCount => ErrorCategory::Validation,
            DirectoryError::EntityCreatorAlreadyExists => ErrorCategory::Validation,
            DirectoryError::EntityMaintainerAlreadyExists => ErrorCategory::Validation,
            DirectoryError::UnresolvedEntityReference => ErrorCategory::Validation,
            DirectoryError::ExpectedRootOrSigned => ErrorCategory::Permission,
            DirectoryError::NotPermittedToCreateClass => ErrorCategory::Permission,
            DirectoryError::ActorInGroupNotAuthenticated => ErrorCategory::Permission,
            DirectoryError::OriginCannotActWithRequestedCredential => ErrorCategory::Permission,
            DirectoryError::NotEntityMaintainer => ErrorCategory::Permission,
            DirectoryError::NotRootOrigin => ErrorCategory::Permission,
            DirectoryError::NotInAdminsSet => ErrorCategory::Permission,
            DirectoryError::EntityCreationBlocked => ErrorCategory::Permission,
            DirectoryError::AccessDenied => ErrorCategory::Permission,
            DirectoryError::VectorNonceMismatch => ErrorCategory::Concurrency,
            DirectoryError::VoucherLimitReached => ErrorCategory::Quota,
            DirectoryError::MaxNumberOfEntitiesPerClassLimitReached => ErrorCategory::Quota,
            DirectoryError::EntityCannotReferenceTargetEntity => ErrorCategory::Integrity,
            DirectoryError::EntityReferenceCounterNotZero => ErrorCategory::Integrity,
        }
    }

    /// Reports the category an error belongs to.
    pub fn category(&self) -> (r: ErrorCategory)
        ensures
            r == self.spec_category(),
    {
        match self {
            DirectoryError::ClassNotFound => ErrorCategory::NotFound,
            DirectoryError::EntityNotFound => ErrorCategory::NotFound,
            DirectoryError::ReferencedEntityNotFound => ErrorCategory::NotFound,
            DirectoryError::EntityCreatorDoesNotExist => ErrorCategory::NotFound,
            DirectoryError::EntityMaintainerDoesNotExist => ErrorCategory::NotFound,
            DirectoryError::EntityCreationVoucherDoesNotExist => ErrorCategory::NotFound,
            DirectoryError::ExpectedRootOrSigned => ErrorCategory::Permission,
            DirectoryError::NotPermittedToCreateClass => ErrorCategory::Permission,
            DirectoryError::ActorInGroupNotAuthenticated => ErrorCategory::Permission,
            DirectoryError::OriginCannotActWithRequestedCredential => ErrorCategory::Permission,
            DirectoryError::NotEntityMaintainer => ErrorCategory::Permission,
            DirectoryError::NotRootOrigin => ErrorCategory::Permission,
            DirectoryError::NotInAdminsSet => ErrorCategory::Permission,
            DirectoryError::EntityCreationBlocked => ErrorCategory::Permission,
            DirectoryError::AccessDenied => ErrorCategory::Permission,
            DirectoryError::VectorNonceMismatch => ErrorCategory::Concurrency,
            DirectoryError::VoucherLimitReached => ErrorCategory::Quota,
            DirectoryError::MaxNumberOfEntitiesPerClassLimitReached => ErrorCategory::Quota,
            DirectoryError::EntityCannotReferenceTargetEntity => ErrorCategory::Integrity,
            DirectoryError::EntityReferenceCounterNotZero => ErrorCategory::Integrity,
            _ => ErrorCategory::Validation,
        }
    }
}

} // verus!
