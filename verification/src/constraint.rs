//! Class-level reference constraints: which other classes may hold
//! references into a class's entities.

use vstd::prelude::*;

use crate::ids::{ClassId, PropertyId};

verus! {

/// One permitted origin of a reference: a property of a class.
#[derive(Clone, Copy, PartialEq, Eq, Structural, Debug)]
pub struct PropertyOfClass {
    pub class_id: ClassId,
    pub property_index: PropertyId,
}

/// A class's policy on incoming references.
#[derive(Clone, PartialEq, Eq, Debug)]
pub enum ReferenceConstraint {
    /// Entities of any class may reference entities of this class.
    NoConstraint,
    /// No entity may reference entities of this class.
    NoReferencingAllowed,
    /// Only the listed (class, property) origins may reference entities of
    /// this class.
    Restricted(Vec<PropertyOfClass>),
}

/// Mathematical model of a `ReferenceConstraint`.
pub enum ReferenceConstraintView {
    NoConstraint,
    NoReferencingAllowed,
    Restricted(Seq<PropertyOfClass>),
}

impl View for ReferenceConstraint {
    type V = ReferenceConstraintView;

    open spec fn view(&self) -> ReferenceConstraintView {
        match self {
            ReferenceConstraint::NoConstraint => ReferenceConstraintView::NoConstraint,
            ReferenceConstraint::NoReferencingAllowed => ReferenceConstraintView::NoReferencingAllowed,
            ReferenceConstraint::Restricted(v) => ReferenceConstraintView::Restricted(v@),
        }
    }
}

impl ReferenceConstraintView {
    /// Whether a reference held by the given property of the given class is
    /// permitted by this constraint.
    pub open spec fn allows(self, class_id: ClassId, property_index: PropertyId) -> bool {
        match self {
            ReferenceConstraintView::NoConstraint => true,
            ReferenceConstraintView::NoReferencingAllowed => false,
            ReferenceConstraintView::Restricted(origins) => origins.contains(
                PropertyOfClass { class_id, property_index },
            ),
        }
    }
}

impl ReferenceConstraint {
    /// Whether a reference held by the given property of the given class is
    /// permitted by this constraint.
    pub fn allows(&self, class_id: ClassId, property_index: PropertyId) -> (r: bool)
        ensures
            r == self@.allows(class_id, property_index),
    {
        match self {
            ReferenceConstraint::NoConstraint => true,
            ReferenceConstraint::NoReferencingAllowed => false,
            ReferenceConstraint::Restricted(origins) => {
                let mut i: usize = 0;
                while i < origins.len()
                    invariant
                        i <= origins.len(),
                        self@ == ReferenceConstraintView::Restricted(origins@),
                        forall|j: int|
                            0 <= j < i ==> origins@[j] != (PropertyOfClass {
                                class_id,
                                property_index,
                            }),
                    decreases origins.len() - i,
                {
                    if origins[i].class_id == class_id && origins[i].property_index
                        == property_index {
                        proof {
                            let p = PropertyOfClass { class_id, property_index };
                            assert(origins@[i as int] == p);
                            assert(origins@.contains(p));
                        }
                        return true;
                    }
                    i += 1;
                }
                false
            },
        }
    }

    /// A copy of the constraint.
    pub fn duplicate(&self) -> (r: Self)
        ensures
            r@ == self@,
    {
        match self {
            ReferenceConstraint::NoConstraint => ReferenceConstraint::NoConstraint,
            ReferenceConstraint::NoReferencingAllowed => ReferenceConstraint::NoReferencingAllowed,
            ReferenceConstraint::Restricted(origins) => ReferenceConstraint::Restricted(
                crate::schema::copy_vec(origins),
            ),
        }
    }
}

} // verus!
