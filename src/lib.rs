//! Accounting core of a collateralized lending pool: interest-bearing reserves,
//! user positions, health-factor checks, bad-debt transfer, batched submissions
//! and the backstop emissions index.

pub mod errors;
pub mod fixed_point;
pub mod address;
pub mod request;
pub mod reserve;
pub mod arith;
pub mod reserve_lemmas;
pub mod emissions;
pub mod positions;
pub mod pool;
pub mod bad_debt;
pub mod transfers;
pub mod health;
pub mod actions;
pub mod submit;
