//! Identifier types and the length constraint used to validate input text.

use vstd::prelude::*;

verus! {

/// Index of a class in the directory; classes are never removed, so a class
/// id is a stable index into the class list.
pub type ClassId = u64;

/// Index of an entity slot in the directory; entity ids are never reused.
pub type EntityId = u64;

/// Index of a property inside a class's property list.
pub type PropertyId = u64;

/// Index of a schema inside a class's schema list.
pub type SchemaId = u64;

/// A credential that a caller may prove possession of.
pub type Credential = u64;

/// An account that signs a call.
pub type AccountId = u64;

/// A group of actors.
pub type GroupId = u64;

/// An actor inside a group.
pub type ActorId = u64;

/// Version counter carried by every vector property value.
pub type Nonce = u64;

/// Block height stamped on permission updates.
pub type BlockNumber = u64;

/// Largest allowed length of a text property value.
pub type TextMaxLength = u16;

/// Largest allowed length of a vector property value.
pub type VecMaxLength = u16;

/// Length constraint for input validation.  Storing the difference between
/// the maximum and the minimum makes `max < min` unrepresentable.
#[derive(Clone, Copy, PartialEq, Eq, Structural, Debug)]
pub struct InputValidationLengthConstraint {
    /// Minimum length.
    pub min: u16,

    /// Difference between the minimum and the maximum length.
    pub max_min_diff: u16,
}

impl InputValidationLengthConstraint {
    pub fn new(min: u16, max_min_diff: u16) -> (r: Self)
        ensures
            r == (InputValidationLengthConstraint { min, max_min_diff }),
    {
        Self { min, max_min_diff }
    }

    /// The largest length the constraint accepts.
    pub open spec fn spec_max(self) -> int {
        self.min + self.max_min_diff
    }

    /// Helper for computing the maximum length.
    pub fn max(self) -> (r: u16)
        requires
            self.min + self.max_min_diff <= u16::MAX,
        ensures
            r == self.spec_max(),
    {
        self.min + self.max_min_diff
    }

    /// Whether a length is accepted by the constraint.
    pub open spec fn accepts(self, len: int) -> bool {
        self.min <= len <= self.spec_max()
    }

    pub fn ensure_valid(
        self,
        len: usize,
        too_short: crate::errors::DirectoryError,
        too_long: crate::errors::DirectoryError,
    ) -> (r: Result<(), crate::errors::DirectoryError>)
        ensures
            r is Ok <==> self.accepts(len as int),
            len < self.min ==> r == Err::<(), crate::errors::DirectoryError>(too_short),
            len > self.spec_max() ==> r == Err::<(), crate::errors::DirectoryError>(too_long),
    {
        let max: u32 = self.min as u32 + self.max_min_diff as u32;
        if len < self.min as usize {
            Err(too_short)
        } else if len as u64 > max as u64 {
            Err(too_long)
        } else {
            Ok(())
        }
    }
}

} // verus!
