//! Access levels, class permissions, entity permissions, controllers and
//! creation vouchers, and the permission predicates that gate mutations.

use vstd::prelude::*;

use crate::constraint::{ReferenceConstraint, ReferenceConstraintView};
use crate::credentials::CredentialSet;
use crate::errors::DirectoryError;
use crate::ids::{AccountId, ActorId, BlockNumber, Credential, GroupId};

verus! {

/// The caller of an operation: the system itself, or a signed account.
#[derive(Clone, Copy, PartialEq, Eq, Structural, Debug)]
pub enum RawOrigin {
    /// The administrative system origin.
    Root,
    /// A call signed by an account.
    Signed(AccountId),
    /// A call that carries no signature and is not the system.
    Unsigned,
}

/// The authorization standing a caller acts with, derived once per
/// operation.
#[derive(Clone, Copy, PartialEq, Eq, Structural, Debug)]
pub enum AccessLevel {
    /// The administrative system origin.
    System,
    /// A signed caller that proved the maintainer credential of the target
    /// entity.
    EntityMaintainer,
    /// A signed caller that proved possession of a credential.
    Credential(Credential),
    /// A signed caller asserting no credential.
    Unspecified,
}

/// Who controls entities created under a class.
#[derive(Clone, Copy, PartialEq, Eq, Structural, Debug)]
pub enum InitialControllerPolicy {
    /// The creating actor inside its group controls the entity.
    ActorInGroup,
    /// The creating group as a whole controls the entity.
    Group,
}

/// The controller of an entity, used to key creation vouchers.
#[derive(Clone, Copy, PartialEq, Eq, Structural, Debug)]
pub enum EntityController {
    Unspecified,
    Group(GroupId),
    ActorInGroup(ActorId, GroupId),
}

impl EntityController {
    pub fn from_group(group_id: GroupId) -> (r: Self)
        ensures
            r == EntityController::Group(group_id),
    {
        EntityController::Group(group_id)
    }

    pub fn from_actor_in_group(actor_id: ActorId, group_id: GroupId) -> (r: Self)
        ensures
            r == EntityController::ActorInGroup(actor_id, group_id),
    {
        EntityController::ActorInGroup(actor_id, group_id)
    }
}

/// An actor acting inside a group.
#[derive(Clone, Copy, PartialEq, Eq, Structural, Debug)]
pub struct ActorInGroupId {
    pub actor_id: ActorId,
    pub group_id: GroupId,
}

/// The per-controller creation limit a creator registration carries:
/// an explicit override, or the class's default.
#[derive(Clone, Copy, PartialEq, Eq, Structural, Debug)]
pub enum EntityCreationLimit {
    /// Use this exact limit.
    Individual(u64),
    /// Use the class's per-controller creation limit.
    SameAsClass,
}

/// Permissions carried by one entity.
#[derive(Clone, Copy, PartialEq, Eq, Structural, Debug)]
pub struct EntityPermission {
    pub controller: EntityController,
    pub frozen_for_controller: bool,
}

impl EntityPermission {
    pub fn set_controller(&mut self, controller: EntityController)
        ensures
            *final(self) == (EntityPermission { controller, ..*old(self) }),
    {
        self.controller = controller;
    }

    pub fn set_frozen_for_controller(&mut self, frozen: bool)
        ensures
            *final(self) == (EntityPermission { frozen_for_controller: frozen, ..*old(self) }),
    {
        self.frozen_for_controller = frozen;
    }
}

impl Default for EntityPermission {
    /// An entity permission with no controller and nothing frozen.
    fn default() -> (r: Self)
        ensures
            r == (EntityPermission {
                controller: EntityController::Unspecified,
                frozen_for_controller: false,
            }),
    {
        EntityPermission { controller: EntityController::Unspecified, frozen_for_controller: false }
    }
}

/// Class-level permissions on the entities of the class.
#[derive(Clone, PartialEq, Eq, Debug)]
pub struct EntityPermissions {
    /// Credentials that may update entities of the class.
    pub update: CredentialSet,
    /// Whether an entity maintainer may update the entity.
    pub maintainer_has_all_permissions: bool,
}

/// Mathematical model of `EntityPermissions`.
pub struct EntityPermissionsView {
    pub update: Seq<Credential>,
    pub maintainer_has_all_permissions: bool,
}

impl View for EntityPermissions {
    type V = EntityPermissionsView;

    open spec fn view(&self) -> EntityPermissionsView {
        EntityPermissionsView {
            update: self.update@,
            maintainer_has_all_permissions: self.maintainer_has_all_permissions,
        }
    }
}

impl EntityPermissions {
    /// A copy of the permissions.
    pub fn duplicate(&self) -> (r: Self)
        ensures
            r@ == self@,
    {
        Self {
            update: self.update.duplicate(),
            maintainer_has_all_permissions: self.maintainer_has_all_permissions,
        }
    }
}

impl Default for EntityPermissions {
    /// By default no credential may update, and a maintainer may.
    fn default() -> (r: Self)
        ensures
            r@.update == Seq::<Credential>::empty(),
            r@.maintainer_has_all_permissions,
    {
        EntityPermissions { update: CredentialSet::empty(), maintainer_has_all_permissions: true }
    }
}

/// The entity-creation quota of one (class, controller) pair.
#[derive(Clone, Copy, PartialEq, Eq, Structural, Debug)]
pub struct EntityCreationVoucher {
    /// How many entities the controller may create under the class.
    pub maximum_entities_count: u64,
    /// How many it has created.
    pub entities_created: u64,
}

impl EntityCreationVoucher {
    /// A fresh voucher with the given limit; the invariant
    /// `entities_created <= maximum_entities_count` holds from the start.
    pub fn new(maximum_entities_count: u64) -> (r: Self)
        ensures
            r == (EntityCreationVoucher { maximum_entities_count, entities_created: 0 }),
    {
        Self { maximum_entities_count, entities_created: 0 }
    }

    /// Whether another entity may still be created under the voucher.
    pub fn limit_not_reached(&self) -> (r: bool)
        ensures
            r == (self.entities_created < self.maximum_entities_count),
    {
        self.entities_created < self.maximum_entities_count
    }

    pub fn increment_created_entities_count(&mut self)
        requires
            old(self).entities_created < old(self).maximum_entities_count,
        ensures
            final(self).entities_created == old(self).entities_created + 1,
            final(self).maximum_entities_count == old(self).maximum_entities_count,
    {
        self.entities_created = self.entities_created + 1;
    }

    pub fn set_maximum_entities_count(&mut self, maximum_entities_count: u64)
        requires
            old(self).entities_created <= maximum_entities_count,
        ensures
            *final(self) == (EntityCreationVoucher { maximum_entities_count, ..*old(self) }),
    {
        self.maximum_entities_count = maximum_entities_count;
    }
}

/// The permission set of one class.
#[derive(Clone, PartialEq, Eq, Debug)]
pub struct ClassPermissions {
    /// Credentials that administer the class: admins pass every
    /// per-operation predicate.
    pub admins: CredentialSet,
    /// Permissions on entities of the class.
    pub entity_permissions: EntityPermissions,
    /// When set, no credential may create entities; the system still can.
    pub entity_creation_blocked: bool,
    /// Who controls entities created under the class.
    pub initial_controller_of_created_entities: InitialControllerPolicy,
    /// Class-wide cap on created entities.
    pub maximum_entities_count: u64,
    /// How many entities have been created under the class.
    pub current_number_of_entities: u64,
    /// Default creation limit for a controller without an explicit voucher.
    pub per_controller_entity_creation_limit: u64,
    /// Credentials that may add schemas to the class.
    pub add_schemas: CredentialSet,
    /// Credentials that may activate or deactivate schemas of the class.
    pub update_schemas_status: CredentialSet,
    /// Credentials that may create entities of the class.
    pub create_entities: CredentialSet,
    /// Which properties of which classes may reference entities of the
    /// class.
    pub reference_constraint: ReferenceConstraint,
    /// Block height of the last permissions update.
    pub last_permissions_update: BlockNumber,
}

/// Mathematical model of `ClassPermissions`.
pub struct ClassPermissionsView {
    pub admins: Seq<Credential>,
    pub entity_permissions: EntityPermissionsView,
    pub entity_creation_blocked: bool,
    pub initial_controller_of_created_entities: InitialControllerPolicy,
    pub maximum_entities_count: u64,
    pub current_number_of_entities: u64,
    pub per_controller_entity_creation_limit: u64,
    pub add_schemas: Seq<Credential>,
    pub update_schemas_status: Seq<Credential>,
    pub create_entities: Seq<Credential>,
    pub reference_constraint: ReferenceConstraintView,
    pub last_permissions_update: BlockNumber,
}

impl View for ClassPermissions {
    type V = ClassPermissionsView;

    open spec fn view(&self) -> ClassPermissionsView {
        ClassPermissionsView {
            admins: self.admins@,
            entity_permissions: self.entity_permissions@,
            entity_creation_blocked: self.entity_creation_blocked,
            initial_controller_of_created_entities: self.initial_controller_of_created_entities,
            maximum_entities_count: self.maximum_entities_count,
            current_number_of_entities: self.current_number_of_entities,
            per_controller_entity_creation_limit: self.per_controller_entity_creation_limit,
            add_schemas: self.add_schemas@,
            update_schemas_status: self.update_schemas_status@,
            create_entities: self.create_entities@,
            reference_constraint: self.reference_constraint@,
            last_permissions_update: self.last_permissions_update,
        }
    }
}

impl Default for ClassPermissions {
    /// Default permissions: no credentials are listed anywhere, creation is
    /// not blocked, groups control created entities, no caps bind, and
    /// references into the class are unconstrained.
    fn default() -> (r: Self)
        ensures
            r@ == ClassPermissions::spec_default(),
    {
        ClassPermissions {
            admins: CredentialSet::empty(),
            entity_permissions: EntityPermissions {
                update: CredentialSet::empty(),
                maintainer_has_all_permissions: true,
            },
            entity_creation_blocked: false,
            initial_controller_of_created_entities: InitialControllerPolicy::Group,
            maximum_entities_count: u64::MAX,
            current_number_of_entities: 0,
            per_controller_entity_creation_limit: u64::MAX,
            add_schemas: CredentialSet::empty(),
            update_schemas_status: CredentialSet::empty(),
            create_entities: CredentialSet::empty(),
            reference_constraint: ReferenceConstraint::NoConstraint,
            last_permissions_update: 0,
        }
    }
}

impl ClassPermissions {
    /// The default permission set.
    pub open spec fn spec_default() -> ClassPermissionsView {
        ClassPermissionsView {
            admins: Seq::empty(),
            entity_permissions: EntityPermissionsView {
                update: Seq::empty(),
                maintainer_has_all_permissions: true,
            },
            entity_creation_blocked: false,
            initial_controller_of_created_entities: InitialControllerPolicy::Group,
            maximum_entities_count: u64::MAX,
            current_number_of_entities: 0,
            per_controller_entity_creation_limit: u64::MAX,
            add_schemas: Seq::empty(),
            update_schemas_status: Seq::empty(),
            create_entities: Seq::empty(),
            reference_constraint: ReferenceConstraintView::NoConstraint,
            last_permissions_update: 0,
        }
    }

    /// A copy of the permissions.
    pub fn duplicate(&self) -> (r: Self)
        ensures
            r@ == self@,
    {
        ClassPermissions {
            admins: self.admins.duplicate(),
            entity_permissions: self.entity_permissions.duplicate(),
            entity_creation_blocked: self.entity_creation_blocked,
            initial_controller_of_created_entities: self.initial_controller_of_created_entities,
            maximum_entities_count: self.maximum_entities_count,
            current_number_of_entities: self.current_number_of_entities,
            per_controller_entity_creation_limit: self.per_controller_entity_creation_limit,
            add_schemas: self.add_schemas.duplicate(),
            update_schemas_status: self.update_schemas_status.duplicate(),
            create_entities: self.create_entities.duplicate(),
            reference_constraint: self.reference_constraint.duplicate(),
            last_permissions_update: self.last_permissions_update,
        }
    }
}

/// The closed set of permission predicates an operation can select.
#[derive(Clone, Copy, PartialEq, Eq, Structural, Debug)]
pub enum PermissionRule {
    /// Only the system passes.
    IsSystem,
    /// The system, or a credential in the admins set.
    IsAdmin,
    /// Whoever may create entities of the class.
    CanCreateEntity,
    /// Whoever may update entities of the class.
    CanUpdateEntity,
    /// Whoever may remove entities of the class.
    CanRemoveEntity,
    /// Whoever may add schemas to the class.
    CanAddClassSchema,
    /// Whoever may activate or deactivate schemas of the class.
    CanUpdateSchemaStatus,
}

impl ClassPermissionsView {
    /// Whether the access level administers the class.
    pub open spec fn is_admin_level(self, level: AccessLevel) -> bool {
        match level {
            AccessLevel::System => true,
            AccessLevel::Credential(c) => self.admins.contains(c),
            _ => false,
        }
    }

    /// Whether the access level passes a permission rule.  The system
    /// passes every rule; an admin credential passes every rule but
    /// `IsSystem`; for the per-operation rules a credential in that
    /// operation's set passes, and an entity maintainer passes the entity
    /// update and removal rules when maintainers hold all permissions.
    pub open spec fn satisfies(self, rule: PermissionRule, level: AccessLevel) -> bool {
        match rule {
            PermissionRule::IsSystem => level is System,
            PermissionRule::IsAdmin => self.is_admin_level(level),
            PermissionRule::CanCreateEntity => match level {
                AccessLevel::System => true,
                AccessLevel::Credential(c) => !self.entity_creation_blocked && (
                self.create_entities.contains(c) || self.admins.contains(c)),
                _ => false,
            },
            PermissionRule::CanUpdateEntity => self.can_update_level(level),
            PermissionRule::CanRemoveEntity => self.can_update_level(level),
            PermissionRule::CanAddClassSchema => match level {
                AccessLevel::System => true,
                AccessLevel::Credential(c) => self.add_schemas.contains(c) || self.admins.contains(
                    c,
                ),
                _ => false,
            },
            PermissionRule::CanUpdateSchemaStatus => match level {
                AccessLevel::System => true,
                AccessLevel::Credential(c) => self.update_schemas_status.contains(c)
                    || self.admins.contains(c),
                _ => false,
            },
        }
    }

    /// Whether the access level may update or remove entities of the class.
    pub open spec fn can_update_level(self, level: AccessLevel) -> bool {
        match level {
            AccessLevel::System => true,
            AccessLevel::EntityMaintainer => self.entity_permissions.maintainer_has_all_permissions,
            AccessLevel::Credential(c) => self.entity_permissions.update.contains(c)
                || self.admins.contains(c),
            AccessLevel::Unspecified => false,
        }
    }

    /// The error a failed permission rule reports.
    pub open spec fn denial(self, rule: PermissionRule, level: AccessLevel) -> DirectoryError {
        match rule {
            PermissionRule::IsSystem => DirectoryError::NotRootOrigin,
            PermissionRule::IsAdmin => DirectoryError::NotInAdminsSet,
            PermissionRule::CanCreateEntity => match level {
                AccessLevel::Credential(c) => if self.entity_creation_blocked {
                    DirectoryError::EntityCreationBlocked
                } else {
                    DirectoryError::AccessDenied
                },
                _ => DirectoryError::AccessDenied,
            },
            _ => DirectoryError::AccessDenied,
        }
    }
}

impl ClassPermissions {
    /// Evaluates one permission rule for one access level: passes exactly
    /// when the rule's predicate holds, and otherwise reports the rule's
    /// error.
    pub fn check_rule(&self, rule: PermissionRule, level: &AccessLevel) -> (r: Result<
        (),
        DirectoryError,
    >)
        ensures
            r is Ok <==> self@.satisfies(rule, *level),
            r is Err ==> r->Err_0 == self@.denial(rule, *level),
    {
        match rule {
            PermissionRule::IsSystem => {
                if let AccessLevel::System = level {
                    Ok(())
                } else {
                    Err(DirectoryError::NotRootOrigin)
                }
            },
            PermissionRule::IsAdmin => {
                match level {
                    AccessLevel::System => Ok(()),
                    AccessLevel::Credential(c) => {
                        if self.admins.contains(*c) {
                            Ok(())
                        } else {
                            Err(DirectoryError::NotInAdminsSet)
                        }
                    },
                    _ => Err(DirectoryError::NotInAdminsSet),
                }
            },
            PermissionRule::CanCreateEntity => {
                match level {
                    AccessLevel::System => Ok(()),
                    AccessLevel::Credential(c) => {
                        if self.entity_creation_blocked {
                            Err(DirectoryError::EntityCreationBlocked)
                        } else if self.create_entities.contains(*c) || self.admins.contains(*c) {
                            Ok(())
                        } else {
                            Err(DirectoryError::AccessDenied)
                        }
                    },
                    _ => Err(DirectoryError::AccessDenied),
                }
            },
            PermissionRule::CanUpdateEntity => self.check_update_level(level),
            PermissionRule::CanRemoveEntity => self.check_update_level(level),
            PermissionRule::CanAddClassSchema => {
                match level {
                    AccessLevel::System => Ok(()),
                    AccessLevel::Credential(c) => {
                        if self.add_schemas.contains(*c) || self.admins.contains(*c) {
                            Ok(())
                        } else {
                            Err(DirectoryError::AccessDenied)
                        }
                    },
                    _ => Err(DirectoryError::AccessDenied),
                }
            },
            PermissionRule::CanUpdateSchemaStatus => {
                match level {
                    AccessLevel::System => Ok(()),
                    AccessLevel::Credential(c) => {
                        if self.update_schemas_status.contains(*c) || self.admins.contains(*c) {
                            Ok(())
                        } else {
                            Err(DirectoryError::AccessDenied)
                        }
                    },
                    _ => Err(DirectoryError::AccessDenied),
                }
            },
        }
    }

    /// Evaluates the entity update/removal predicate for one access level.
    fn check_update_level(&self, level: &AccessLevel) -> (r: Result<(), DirectoryError>)
        ensures
            r is Ok <==> self@.can_update_level(*level),
            r is Err ==> r->Err_0 == DirectoryError::AccessDenied,
    {
        match level {
            AccessLevel::System => Ok(()),
            AccessLevel::EntityMaintainer => {
                if self.entity_permissions.maintainer_has_all_permissions {
                    Ok(())
                } else {
                    Err(DirectoryError::AccessDenied)
                }
            },
            AccessLevel::Credential(c) => {
                if self.entity_permissions.update.contains(*c) || self.admins.contains(*c) {
                    Ok(())
                } else {
                    Err(DirectoryError::AccessDenied)
                }
            },
            AccessLevel::Unspecified => Err(DirectoryError::AccessDenied),
        }
    }
}

} // verus!
