//! A competitive-event ledger: fixed-capacity records addressed by a
//! deterministic 32-byte derivation, a binary codec with safe
//! resize/zero-fill semantics, and the competition lifecycle state
//! machine built on top of both.

pub mod addr;
pub mod codec;
pub mod competition;
pub mod error;
pub mod instruction;
pub mod lifecycle;
pub mod ops;
pub mod pda;
pub mod program_card;
pub mod raid;
pub mod registry;
pub mod state_cards;
pub mod store;
pub mod user_card;
pub mod types;
