//! Collateralized installment plans: creation against a collateral balance,
//! exact amortization, and collection with a fallback between the available
//! and the protected bucket.
//!
//! Every operation is a pure step: it takes the values that the host read
//! (the stored plan, the collateral balance, the ledger time) and returns the
//! new state together with the collateral calls that the host must perform.

pub mod model;
pub mod schedule;
pub mod contract;
pub mod laws;

pub use model::{
    BridgePlan, BufferBalance, CollateralCall, Collection, Error, Installment, InstallmentStatus,
    PaymentSource, PlanStatus,
};
pub use schedule::amortize;
pub use contract::BridgeContract;
