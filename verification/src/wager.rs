//! The wager program: its accounts, its instructions, how both are laid out
//! in bytes, and how its addresses are derived.

pub mod wire;
pub mod state;
pub mod instruction;
pub mod pots;
