//! Deriving the access level a caller acts with, and the combined gate
//! that every permissioned operation runs: derive the level, fetch the
//! class, and evaluate the operation's permission rule.

use vstd::prelude::*;

use crate::credentials::CredentialChecker;
use crate::errors::DirectoryError;
use crate::ids::{ClassId, Credential, EntityId};
use crate::permissions::{AccessLevel, PermissionRule, RawOrigin};
use crate::state::Module;

verus! {

/// What `derive_access_level` returns: the system origin is elevated; a
/// signed caller with no claimed credential is unspecified; a claimed
/// credential must be confirmed by the checker, and a requested maintainer
/// check must find the claimed credential recorded for the target entity.
pub open spec fn spec_derive_access_level<C: CredentialChecker>(
    m: Module,
    checker: C,
    origin: RawOrigin,
    with_credential: Option<Credential>,
    as_entity_maintainer: Option<EntityId>,
) -> Result<AccessLevel, DirectoryError> {
    match origin {
        RawOrigin::Root => Ok(AccessLevel::System),
        RawOrigin::Signed(account) => match with_credential {
            None => Ok(AccessLevel::Unspecified),
            Some(credential) => if !checker.spec_has_credential(account, credential) {
                Err(DirectoryError::OriginCannotActWithRequestedCredential)
            } else {
                match as_entity_maintainer {
                    None => Ok(AccessLevel::Credential(credential)),
                    Some(entity_id) => if entity_id < m.entity_maintainer_by_entity_id@.len()
                        && m.maintainer_of(entity_id) == Some(credential) {
                        Ok(AccessLevel::EntityMaintainer)
                    } else {
                        Err(DirectoryError::NotEntityMaintainer)
                    },
                }
            },
        },
        RawOrigin::Unsigned => Err(DirectoryError::ExpectedRootOrSigned),
    }
}

/// What the combined permission gate returns: the derived access level
/// when the class exists and the level passes the rule, and the first
/// failing check's error otherwise.
pub open spec fn spec_permission_gate<C: CredentialChecker>(
    m: Module,
    checker: C,
    origin: RawOrigin,
    with_credential: Option<Credential>,
    as_entity_maintainer: Option<EntityId>,
    rule: PermissionRule,
    class_id: ClassId,
) -> Result<AccessLevel, DirectoryError> {
    match spec_derive_access_level(m, checker, origin, with_credential, as_entity_maintainer) {
        Err(e) => Err(e),
        Ok(level) => if !m.has_class(class_id) {
            Err(DirectoryError::ClassNotFound)
        } else if m.class_at(class_id).class_permissions.satisfies(rule, level) {
            Ok(level)
        } else {
            Err(m.class_at(class_id).class_permissions.denial(rule, level))
        },
    }
}

impl Module {
    /// Rejects an origin that is neither the system nor a signed account.
    pub fn ensure_root_or_signed(raw_origin: &RawOrigin) -> (r: Result<RawOrigin, DirectoryError>)
        ensures
            r is Ok <==> !(raw_origin is Unsigned),
            r is Ok ==> r->Ok_0 == *raw_origin,
            r is Err ==> r->Err_0 == DirectoryError::ExpectedRootOrSigned,
    {
        match raw_origin {
            RawOrigin::Root => Ok(RawOrigin::Root),
            RawOrigin::Signed(account) => Ok(RawOrigin::Signed(*account)),
            RawOrigin::Unsigned => Err(DirectoryError::ExpectedRootOrSigned),
        }
    }

    /// Derives the access level the caller acts with.
    pub fn derive_access_level<C: CredentialChecker>(
        &self,
        checker: &C,
        raw_origin: &RawOrigin,
        with_credential: Option<Credential>,
        as_entity_maintainer: Option<EntityId>,
    ) -> (r: Result<AccessLevel, DirectoryError>)
        ensures
            r == spec_derive_access_level(
                *self,
                *checker,
                *raw_origin,
                with_credential,
                as_entity_maintainer,
            ),
    {
        match raw_origin {
            RawOrigin::Root => Ok(AccessLevel::System),
            RawOrigin::Signed(account) => {
                if let Some(credential) = with_credential {
                    if !checker.account_has_credential(*account, credential) {
                        return Err(DirectoryError::OriginCannotActWithRequestedCredential);
                    }
                    if let Some(entity_id) = as_entity_maintainer {
                        if entity_id >= self.entity_maintainer_by_entity_id.len() as u64 {
                            return Err(DirectoryError::NotEntityMaintainer);
                        }
                        let i = entity_id as usize;
                        match &self.entity_maintainer_by_entity_id[i] {
                            Some(maintainer_credential) => {
                                if credential == *maintainer_credential {
                                    Ok(AccessLevel::EntityMaintainer)
                                } else {
                                    Err(DirectoryError::NotEntityMaintainer)
                                }
                            },
                            None => Err(DirectoryError::NotEntityMaintainer),
                        }
                    } else {
                        Ok(AccessLevel::Credential(credential))
                    }
                } else {
                    Ok(AccessLevel::Unspecified)
                }
            },
            RawOrigin::Unsigned => Err(DirectoryError::ExpectedRootOrSigned),
        }
    }

    /// Derives the caller's access level and evaluates a permission rule
    /// against a class's permission set.
    pub fn if_class_permissions_satisfied<C: CredentialChecker>(
        &self,
        checker: &C,
        raw_origin: &RawOrigin,
        with_credential: Option<Credential>,
        as_entity_maintainer: Option<EntityId>,
        rule: PermissionRule,
        class_id: ClassId,
    ) -> (r: Result<AccessLevel, DirectoryError>)
        ensures
            r == spec_permission_gate(
                *self,
                *checker,
                *raw_origin,
                with_credential,
                as_entity_maintainer,
                rule,
                class_id,
            ),
    {
        let level = self.derive_access_level(
            checker,
            raw_origin,
            with_credential,
            as_entity_maintainer,
        )?;
        self.ensure_known_class_id(class_id)?;
        let class = self.class_ref(class_id);
        class.get_permissions().check_rule(rule, &level)?;
        Ok(level)
    }
}

} // verus!
