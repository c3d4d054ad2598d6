//! Custody delegation for unique assets: an owner locks one asset under a
//! protocol-controlled authority, the asset stays in the owner's holding
//! account but is frozen, and releasing it credits a fixed reward.
//!
//! `program` decides each request on the accounts it names: it refuses the
//! request, or says which record results and which calls the token module
//! must accept for it. `ledger` carries the decisions out in memory, all or
//! nothing, against `token_module`, a model of the token module. `laws`,
//! `custody` and `rewards` state what then holds of every ledger; `plans`
//! says how the planned calls run.

pub mod address;
pub mod calls;
pub mod context;
pub mod custody;
pub mod error;
pub mod laws;
pub mod ledger;
pub mod plans;
pub mod program;
pub mod rewards;
pub mod state;
pub mod table;
pub mod token_module;
