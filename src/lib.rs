//! Escrow agreements between a buyer and a seller, mediated by an administrator,
//! with an append-only ledger of settlements reported by a trusted oracle.
//!
//! The service is a plain value: every operation takes the caller's identity and,
//! where it needs one, the current time or the ledger balance as arguments.

pub mod identity;
pub mod model;
pub mod machine;
pub mod state;
pub mod ledger;
pub mod service;
pub mod laws;
pub mod users;
pub mod http;

pub use identity::Identity;
