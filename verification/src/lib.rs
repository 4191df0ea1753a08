//! A small university classroom and grading registry.
//!
//! The registry keeps three kinds of records: users (teachers and
//! students of the directory), classrooms with their rosters, and
//! student records with their grades. Every operation validates its
//! inputs, checks the caller's authority or role, and either applies
//! its whole mutation or fails with a typed error and changes nothing.
//!
//! Persistent storage, signature verification and clocks are the
//! caller's collaborators: operations here take the already-loaded
//! records, the verified caller handle and the current timestamp as
//! plain arguments, and hand the mutated records back.

use vstd::prelude::*;

pub mod classroom;
pub mod gradebook;
pub mod laws;
pub mod model;
pub mod users;

verus! {

/// An opaque, globally unique reference to a caller or record
/// (a cryptographic public key in an on-chain deployment).
#[derive(Clone, Copy, Debug, PartialEq, Eq, Structural, Hash)]
pub struct Handle {
    pub id: u64,
}

/// Every way an operation of the registry can fail.
#[derive(Clone, Copy, Debug, PartialEq, Eq, Structural)]
pub enum UniGradingError {
    /// A grade exceeds its assignment's maximum.
    InvalidGrade,
    /// A student record does not belong to the classroom at hand.
    StudentNotInClassroom,
    /// The caller is not the authority that owns the record.
    Unauthorized,
    /// A username (or another required name field) is empty.
    InvalidUsername,
    /// A username exceeds the length cap.
    UsernameTooLong,
    /// The acting user has been deactivated.
    UserDeactivated,
    /// The acting user does not hold the teacher role.
    OnlyTeachers,
    /// The student is already on the classroom's roster.
    StudentAlreadyExists,
    /// An assignment name is empty.
    InvalidAssignmentName,
    /// An assignment name exceeds the length cap.
    AssignmentNameTooLong,
    /// An assignment's maximum grade is zero.
    InvalidMaxGrade,
}

} // verus!
