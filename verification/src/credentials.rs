//! Credential sets and the external checker interfaces.
//!
//! The directory itself never verifies a signature or a credential proof:
//! it consults a `CredentialChecker` for "does this account hold this
//! credential", a `CreateClassPermissionsChecker` for "may this account
//! create classes", and an `ActorAuthenticator` for "does this account act
//! for this actor in this group".  Each checker states its answer in a spec
//! method, so the directory's contracts are exact for any checker.

use vstd::prelude::*;

use crate::ids::{AccountId, ActorId, Credential, GroupId};

verus! {

/// A set of credentials, stored as a list; membership is what matters.
#[derive(Clone, PartialEq, Eq, Debug)]
pub struct CredentialSet {
    pub credentials: Vec<Credential>,
}

impl View for CredentialSet {
    type V = Seq<Credential>;

    open spec fn view(&self) -> Seq<Credential> {
        self.credentials@
    }
}

impl CredentialSet {
    /// The empty credential set.
    pub fn empty() -> (r: Self)
        ensures
            r@ == Seq::<Credential>::empty(),
    {
        Self { credentials: Vec::new() }
    }

    /// A credential set holding the given credentials.
    pub fn from_vec(credentials: Vec<Credential>) -> (r: Self)
        ensures
            r@ == credentials@,
    {
        Self { credentials }
    }

    /// Whether the set holds a credential.
    pub fn contains(&self, credential: Credential) -> (r: bool)
        ensures
            r == self@.contains(credential),
    {
        let mut i: usize = 0;
        while i < self.credentials.len()
            invariant
                i <= self.credentials.len(),
                forall|j: int| 0 <= j < i ==> self.credentials@[j] != credential,
            decreases self.credentials.len() - i,
        {
            if self.credentials[i] == credential {
                return true;
            }
            i += 1;
        }
        false
    }

    /// A copy of the set.
    pub fn duplicate(&self) -> (r: Self)
        ensures
            r@ == self@,
    {
        Self { credentials: crate::schema::copy_vec(&self.credentials) }
    }
}

/// Answers whether an account holds a credential.
pub trait CredentialChecker {
    /// What the checker answers.
    spec fn spec_has_credential(&self, account: AccountId, credential: Credential) -> bool;

    /// Whether the account holds the credential.
    fn account_has_credential(&self, account: AccountId, credential: Credential) -> (r: bool)
        ensures
            r == self.spec_has_credential(account, credential),
    ;
}

/// A checker under which no account holds any credential; only the system
/// origin can then act on the directory.
pub struct NoCredentialChecker {}

impl CredentialChecker for NoCredentialChecker {
    open spec fn spec_has_credential(&self, account: AccountId, credential: Credential) -> bool {
        false
    }

    fn account_has_credential(&self, account: AccountId, credential: Credential) -> (r: bool) {
        false
    }
}

/// A checker backed by an explicit table of (account, credential) pairs.
pub struct CredentialTable {
    pub entries: Vec<(AccountId, Credential)>,
}

impl CredentialChecker for CredentialTable {
    open spec fn spec_has_credential(&self, account: AccountId, credential: Credential) -> bool {
        self.entries@.contains((account, credential))
    }

    fn account_has_credential(&self, account: AccountId, credential: Credential) -> (r: bool) {
        let mut i: usize = 0;
        while i < self.entries.len()
            invariant
                i <= self.entries.len(),
                forall|j: int| 0 <= j < i ==> self.entries@[j] != (account, credential),
            decreases self.entries.len() - i,
        {
            if self.entries[i].0 == account && self.entries[i].1 == credential {
                return true;
            }
            i += 1;
        }
        false
    }
}

/// Two checkers side by side: an account holds a credential when either
/// member says so.  This lets several credential sources be combined.
pub struct PairChecker<X, Y> {
    pub first: X,
    pub second: Y,
}

impl<X: CredentialChecker, Y: CredentialChecker> CredentialChecker for PairChecker<X, Y> {
    open spec fn spec_has_credential(&self, account: AccountId, credential: Credential) -> bool {
        self.first.spec_has_credential(account, credential) || self.second.spec_has_credential(
            account,
            credential,
        )
    }

    fn account_has_credential(&self, account: AccountId, credential: Credential) -> (r: bool) {
        self.first.account_has_credential(account, credential)
            || self.second.account_has_credential(account, credential)
    }
}

/// Answers whether an account may create new classes.
pub trait CreateClassPermissionsChecker {
    /// What the checker answers.
    spec fn spec_can_create_class(&self, account: AccountId) -> bool;

    /// Whether the account may create classes.
    fn account_can_create_class_permissions(&self, account: AccountId) -> (r: bool)
        ensures
            r == self.spec_can_create_class(account),
    ;
}

/// A checker under which no account may create classes; only the system
/// origin can then create them.
pub struct NoClassCreationChecker {}

impl CreateClassPermissionsChecker for NoClassCreationChecker {
    open spec fn spec_can_create_class(&self, account: AccountId) -> bool {
        false
    }

    fn account_can_create_class_permissions(&self, account: AccountId) -> (r: bool) {
        false
    }
}

/// A checker backed by an explicit list of accounts.
pub struct ClassCreatorTable {
    pub accounts: Vec<AccountId>,
}

impl CreateClassPermissionsChecker for ClassCreatorTable {
    open spec fn spec_can_create_class(&self, account: AccountId) -> bool {
        self.accounts@.contains(account)
    }

    fn account_can_create_class_permissions(&self, account: AccountId) -> (r: bool) {
        let mut i: usize = 0;
        while i < self.accounts.len()
            invariant
                i <= self.accounts.len(),
                forall|j: int| 0 <= j < i ==> self.accounts@[j] != account,
            decreases self.accounts.len() - i,
        {
            if self.accounts[i] == account {
                return true;
            }
            i += 1;
        }
        false
    }
}

/// Answers whether an account legitimately acts for an actor in a group.
pub trait ActorAuthenticator {
    /// What the authenticator answers.
    spec fn spec_authenticates(&self, account: AccountId, actor: ActorId, group: GroupId) -> bool;

    /// Whether the account acts for the actor in the group.
    fn authenticate_actor_in_group(&self, account: AccountId, actor: ActorId, group: GroupId) -> (r:
        bool)
        ensures
            r == self.spec_authenticates(account, actor, group),
    ;
}

/// An authenticator backed by an explicit table of memberships.
pub struct ActorTable {
    pub entries: Vec<(AccountId, ActorId, GroupId)>,
}

impl ActorAuthenticator for ActorTable {
    open spec fn spec_authenticates(&self, account: AccountId, actor: ActorId, group: GroupId) -> bool {
        self.entries@.contains((account, actor, group))
    }

    fn authenticate_actor_in_group(&self, account: AccountId, actor: ActorId, group: GroupId) -> (r:
        bool) {
        let mut i: usize = 0;
        while i < self.entries.len()
            invariant
                i <= self.entries.len(),
                forall|j: int| 0 <= j < i ==> self.entries@[j] != (account, actor, group),
            decreases self.entries.len() - i,
        {
            if self.entries[i].0 == account && self.entries[i].1 == actor && self.entries[i].2
                == group {
                return true;
            }
            i += 1;
        }
        false
    }
}

} // verus!
