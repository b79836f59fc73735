use vstd::prelude::*;

verus! {

/// The outcomes a lending operation can fail with.
#[derive(Debug, Clone, Copy, PartialEq, Eq, Structural)]
pub enum AppError {
    /// The item or the loan does not exist.
    NotFound,
    /// The transition would break the single-active-loan rule: the item is
    /// already out, or the loan was already returned.
    Conflict,
    /// The identity is known but may not perform the transition.
    Forbidden,
    /// No identity could be resolved.
    Unauthenticated,
    /// The store could not carry out the transaction.
    StorageUnavailable,
}

/// The HTTP status each outcome is reported with.
pub open spec fn status_of(e: AppError) -> u16 {
    match e {
        AppError::NotFound => 404,
        AppError::Conflict => 409,
        AppError::Forbidden => 403,
        AppError::Unauthenticated => 401,
        AppError::StorageUnavailable => 500,
    }
}

impl AppError {
    /// The HTTP status code that reports this outcome to a caller.
    pub fn status_code(&self) -> (r: u16)
        ensures
            r == status_of(*self),
    {
        match self {
            AppError::NotFound => 404,
            AppError::Conflict => 409,
            AppError::Forbidden => 403,
            AppError::Unauthenticated => 401,
            AppError::StorageUnavailable => 500,
        }
    }

    /// Whether the outcome is an expected one, reported as is, rather than
    /// an infrastructure failure.
    pub fn is_expected(&self) -> (r: bool)
        ensures
            r == !(*self is StorageUnavailable),
    {
        !matches!(self, AppError::StorageUnavailable)
    }
}

} // verus!
