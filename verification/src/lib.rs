//! State-transition logic of a ledger-resident crowdfunding contract.
//!
//! Campaign records live inside account-resident byte buffers; the handlers
//! (create, withdraw, donate) validate accounts and mutate balances and
//! stored records in place, one instruction at a time.

pub mod accounts;
pub mod codec;
pub mod laws;
pub mod processor;
