//! Command handling: what each command does to the store and what it
//! reports back for display.
pub mod env;
pub mod provider;
