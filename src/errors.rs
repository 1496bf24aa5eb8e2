use vstd::prelude::*;

verus! {

/// Errors raised by the lending pool.
#[derive(Clone, Copy, Debug, PartialEq, Eq, Structural)]
pub enum PoolError {
    NegativeAmountError,
    OverflowError,
    BadRequest,
    InvalidHf,
    InvalidUtilRate,
    ReserveDisabled,
    InternalReserveNotFound,
    ExceededCollateralCap,
}

impl PoolError {
    /// The numeric error code surfaced to callers.
    pub fn code(&self) -> (r: u32)
        ensures
            r == self.spec_code(),
    {
        match self {
            PoolError::NegativeAmountError => 8,
            PoolError::OverflowError => 12,
            PoolError::BadRequest => 1200,
            PoolError::InvalidHf => 1205,
            PoolError::InvalidUtilRate => 1207,
            PoolError::ReserveDisabled => 1223,
            PoolError::InternalReserveNotFound => 1209,
            PoolError::ExceededCollateralCap => 1220,
        }
    }

    pub open spec fn spec_code(&self) -> u32 {
        match self {
            PoolError::NegativeAmountError => 8,
            PoolError::OverflowError => 12,
            PoolError::BadRequest => 1200,
            PoolError::InvalidHf => 1205,
            PoolError::InvalidUtilRate => 1207,
            PoolError::ReserveDisabled => 1223,
            PoolError::InternalReserveNotFound => 1209,
            PoolError::ExceededCollateralCap => 1220,
        }
    }
}

/// Errors raised by the backstop emissions distributor.
#[derive(Clone, Copy, Debug, PartialEq, Eq, Structural)]
pub enum BackstopError {
    NegativeAmountError,
    OverflowError,
}

impl BackstopError {
    /// The numeric error code surfaced to callers.
    pub fn code(&self) -> (r: u32)
        ensures
            r == (match self {
                BackstopError::NegativeAmountError => 8u32,
                BackstopError::OverflowError => 12u32,
            }),
    {
        match self {
            BackstopError::NegativeAmountError => 8,
            BackstopError::OverflowError => 12,
        }
    }
}

} // verus!
