//! Construction of the genesis change set of a ledger.
//!
//! The library decides; it never executes. The execution engine is the
//! caller's: it performs each action that the run asks for and answers
//! with a reply, and the run goes on to the next action of the fixed
//! genesis sequence, or ends with the final change set once both sessions
//! have been merged and checked.

pub mod bytes;
pub mod change_set;
pub mod config;
pub mod events;
pub mod inputs;
pub mod plan;
pub mod session;
pub mod state_view;
pub mod vm;
