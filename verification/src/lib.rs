//! Formats short messages into fixed-width bordered tickets for receipt
//! printers and plans the commands that print them.
//!
//! The functions of this crate are verified against the contracts they
//! state. The few items of other libraries that are taken on trust are marked
//! as trusted where they stand.

pub mod api;
pub mod cli;
pub mod clock;
pub mod layout;
pub mod printer;
pub mod session;
pub mod task;
pub mod text;
