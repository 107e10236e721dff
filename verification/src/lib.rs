//! A personal task tracker organised into named contexts.
//!
//! The crate holds the data model, the rules that keep a collection of
//! contexts consistent, and the decisions behind every command. Reading and
//! writing the stored document, and talking to a remote service, are left to
//! the program built around it.

pub mod args;
pub mod collection;
pub mod error;
pub mod laws;
pub mod run;
pub mod services;
pub mod structs;
pub mod table;
pub mod utils;
