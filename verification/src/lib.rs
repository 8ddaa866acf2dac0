//! Client-side builder for token operations on a ledger whose token program
//! supports per-mint extensions (such as transfer fees).
//!
//! The crate turns a validated user intent — create a token, mint, transfer,
//! inspect an account — into the exact sequence of program instructions that
//! has to be submitted, and decodes raw account records fetched from the
//! ledger. Everything that computes is specified and verified; the few calls
//! into the token-program SDK (instruction encoding, address derivation) sit
//! behind trusted wrappers whose contracts mirror the SDK source.

pub mod address;
pub mod amount;
pub mod commands;
pub mod error;
pub mod instruction;
pub mod spl;
pub mod state;
