//! Declarative validation of the ordered account list handed to an instruction
//! handler: composable constraint wrappers, program address derivation, and a
//! two-phase schema validator (per-slot checks, then cross-slot invariants).

pub mod account;
pub mod error;
pub mod metadata;
pub mod modifiers;
pub mod pda;
pub mod pubkey;
pub mod schema;
