use vstd::prelude::*;

verus! {

/// The kinds of failure the coordinator and the ledger report.
#[derive(Clone, Copy, Debug, PartialEq, Eq, Structural)]
pub enum CoreError {
    /// A bad enum value, timestamp, quantity, identifier or empty field.
    Validation,
    /// The actor may not perform this action.
    Forbidden,
    /// The entity is absent, soft-deleted or invisible to the caller.
    NotFound,
    /// The claim cannot move from its status to the one asked for.
    InvalidTransition,
    /// The listing holds less than the quantity asked for.
    InsufficientQuantity,
    /// An idempotency key already names a listing of another owner.
    IdempotencyConflict,
    /// The listing's status admits no new claim.
    NotClaimable,
    /// A row with the same key already exists.
    Conflict,
}

pub open spec fn spec_http_status(e: CoreError) -> u16 {
    match e {
        CoreError::Validation => 400,
        CoreError::Forbidden => 403,
        CoreError::NotFound => 404,
        CoreError::InvalidTransition => 400,
        CoreError::InsufficientQuantity => 409,
        CoreError::IdempotencyConflict => 409,
        CoreError::NotClaimable => 400,
        CoreError::Conflict => 409,
    }
}

impl CoreError {
    /// The HTTP status under which the error is answered.
    pub fn http_status(self) -> (r: u16)
        ensures
            r == spec_http_status(self),
    {
        match self {
            CoreError::Validation => 400,
            CoreError::Forbidden => 403,
            CoreError::NotFound => 404,
            CoreError::InvalidTransition => 400,
            CoreError::InsufficientQuantity => 409,
            CoreError::IdempotencyConflict => 409,
            CoreError::NotClaimable => 400,
            CoreError::Conflict => 409,
        }
    }
}

} // verus!
