use crate::address::Address;
use vstd::prelude::*;

verus! {

/// Kinds of request a user may submit. Their codes follow declaration order.
#[derive(Clone, Copy, Debug, PartialEq, Eq, Structural)]
pub enum RequestType {
    Supply,
    Withdraw,
    SupplyCollateral,
    WithdrawCollateral,
    Borrow,
    Repay,
}

pub const REQUEST_SUPPLY: u32 = 0;
pub const REQUEST_WITHDRAW: u32 = 1;
pub const REQUEST_SUPPLY_COLLATERAL: u32 = 2;
pub const REQUEST_WITHDRAW_COLLATERAL: u32 = 3;
pub const REQUEST_BORROW: u32 = 4;
pub const REQUEST_REPAY: u32 = 5;

impl RequestType {
    pub open spec fn spec_code(&self) -> u32 {
        match self {
            RequestType::Supply => REQUEST_SUPPLY,
            RequestType::Withdraw => REQUEST_WITHDRAW,
            RequestType::SupplyCollateral => REQUEST_SUPPLY_COLLATERAL,
            RequestType::WithdrawCollateral => REQUEST_WITHDRAW_COLLATERAL,
            RequestType::Borrow => REQUEST_BORROW,
            RequestType::Repay => REQUEST_REPAY,
        }
    }

    /// The wire code of this request type.
    pub fn code(&self) -> (r: u32)
        ensures
            r == self.spec_code(),
    {
        match self {
            RequestType::Supply => REQUEST_SUPPLY,
            RequestType::Withdraw => REQUEST_WITHDRAW,
            RequestType::SupplyCollateral => REQUEST_SUPPLY_COLLATERAL,
            RequestType::WithdrawCollateral => REQUEST_WITHDRAW_COLLATERAL,
            RequestType::Borrow => REQUEST_BORROW,
            RequestType::Repay => REQUEST_REPAY,
        }
    }

    pub open spec fn spec_from_code(code: u32) -> Option<RequestType> {
        if code == REQUEST_SUPPLY {
            Some(RequestType::Supply)
        } else if code == REQUEST_WITHDRAW {
            Some(RequestType::Withdraw)
        } else if code == REQUEST_SUPPLY_COLLATERAL {
            Some(RequestType::SupplyCollateral)
        } else if code == REQUEST_WITHDRAW_COLLATERAL {
            Some(RequestType::WithdrawCollateral)
        } else if code == REQUEST_BORROW {
            Some(RequestType::Borrow)
        } else if code == REQUEST_REPAY {
            Some(RequestType::Repay)
        } else {
            None
        }
    }

    /// The request type with the given wire code, if any.
    pub fn from_code(code: u32) -> (r: Option<RequestType>)
        ensures
            r == RequestType::spec_from_code(code),
            r matches Some(t) ==> t.spec_code() == code,
            r is None <==> code > REQUEST_REPAY,
    {
        if code == REQUEST_SUPPLY {
            Some(RequestType::Supply)
        } else if code == REQUEST_WITHDRAW {
            Some(RequestType::Withdraw)
        } else if code == REQUEST_SUPPLY_COLLATERAL {
            Some(RequestType::SupplyCollateral)
        } else if code == REQUEST_WITHDRAW_COLLATERAL {
            Some(RequestType::WithdrawCollateral)
        } else if code == REQUEST_BORROW {
            Some(RequestType::Borrow)
        } else if code == REQUEST_REPAY {
            Some(RequestType::Repay)
        } else {
            None
        }
    }
}

/// One step of a submission: a request type code, the asset it concerns and an amount
/// of that asset.
#[derive(Clone, Copy, Debug, PartialEq, Eq, Structural)]
pub struct Request {
    pub request_type: u32,
    pub address: Address,
    pub amount: i128,
}

} // verus!
