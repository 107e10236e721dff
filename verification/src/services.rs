//! The two families of storage behind the commands.

pub mod api;
pub mod file;
