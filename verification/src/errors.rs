//! The error taxonomy of the core: precondition failures of the membership
//! coordinator, reported to the user with no state change, and per-record
//! decode failures of the queue, which are swallowed during enumeration and
//! never surface.

use vstd::prelude::*;

verus! {

/// A membership precondition failed; nothing was changed.
#[derive(Clone, Copy, Debug, PartialEq, Eq, Structural)]
pub enum MembershipError {
    /// A join was asked for by a participant who already has a group.
    AlreadyGrouped,
    /// A leave was asked for by a participant who does not hold the named
    /// group, or the group does not exist.
    NotInGroup,
}

/// A persisted help-request record could not be read back.
#[derive(Clone, Copy, Debug, PartialEq, Eq, Structural)]
pub enum DecodeError {
    /// The record does not hold exactly the four expected fields.
    WrongShape,
    /// The timestamp field is not a number, or is zero.
    BadTimestamp,
}

impl MembershipError {
    /// A human-readable account of the failure.
    pub fn message(&self) -> (r: String)
        ensures
            *self == MembershipError::AlreadyGrouped ==> r@ == "You're already part of a team!"@,
            *self == MembershipError::NotInGroup ==> r@ == "You're not part of that team!"@,
    {
        match self {
            MembershipError::AlreadyGrouped => String::from_str("You're already part of a team!"),
            MembershipError::NotInGroup => String::from_str("You're not part of that team!"),
        }
    }
}

} // verus!
