//! The ways in which a migration can fail.

use crate::syntax::Id;
use vstd::prelude::*;
use vstd::std_specs::cmp::PartialEqSpecImpl;

verus! {

/// Why a program could not be migrated.
#[derive(Debug)]
pub enum MigrationError {
    /// The program refers to a variable that nothing binds.
    UnboundIdentifier(Id),
    /// No choice of types satisfies the constraints of the program.
    MigrationFailed,
    /// The solver could not decide whether the constraints can be satisfied.
    BackendIndeterminate,
    /// The solver gave an answer that cannot be right.
    InvariantViolation,
    /// The program needs more metavariables than there are numbers above
    /// the largest number that it holds. Lower numbers that the program
    /// leaves free are not used, so a program with one large number and a
    /// need for fresh metavariables fails in this way.
    MetavarsExhausted,
}

impl MigrationError {
    /// Two errors are of the same kind and, where they name a variable,
    /// name the same one.
    pub open spec fn same(self, other: MigrationError) -> bool {
        match (self, other) {
            (MigrationError::UnboundIdentifier(x), MigrationError::UnboundIdentifier(y)) => x@
                == y@,
            (MigrationError::MigrationFailed, MigrationError::MigrationFailed) => true,
            (MigrationError::BackendIndeterminate, MigrationError::BackendIndeterminate) => true,
            (MigrationError::InvariantViolation, MigrationError::InvariantViolation) => true,
            (MigrationError::MetavarsExhausted, MigrationError::MetavarsExhausted) => true,
            _ => false,
        }
    }
}

impl PartialEq for MigrationError {
    fn eq(&self, other: &Self) -> (r: bool) {
        match (self, other) {
            (MigrationError::UnboundIdentifier(x), MigrationError::UnboundIdentifier(y)) => *x
                == *y,
            (MigrationError::MigrationFailed, MigrationError::MigrationFailed) => true,
            (MigrationError::BackendIndeterminate, MigrationError::BackendIndeterminate) => true,
            (MigrationError::InvariantViolation, MigrationError::InvariantViolation) => true,
            (MigrationError::MetavarsExhausted, MigrationError::MetavarsExhausted) => true,
            _ => false,
        }
    }
}

impl PartialEqSpecImpl for MigrationError {
    open spec fn obeys_eq_spec() -> bool {
        true
    }

    open spec fn eq_spec(&self, other: &Self) -> bool {
        self.same(*other)
    }
}

} // verus!
