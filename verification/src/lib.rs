//! Accounting and rotation engine for rotating-savings groups (ROSCA / Ajo /
//! Esusu): a fixed circle of members each contribute a fixed amount per cycle,
//! and one member receives the pooled amount per cycle until everyone has been
//! paid. The engine is a pure state machine over plain values; the host is
//! expected to supply the clock reading (`now`), to have authenticated the
//! acting principal of each call, and to persist the state between calls.

pub mod errors;
pub mod types;
pub mod ledger;
pub mod model;
mod invariants;
pub mod laws;
pub mod contract;
mod seq_facts;

pub use contract::AjoContract;
pub use errors::AjoError;
pub use types::{GroupState, RefundReason, RefundRecord, RefundRequest, RefundVote};
