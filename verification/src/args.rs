//! The commands as they arrive from the command line.

use vstd::prelude::*;

verus! {

/// One command.
#[derive(Debug, Clone)]
pub enum Commands {
    /// Switch to a context, creating it where it does not exist.
    Use(TaskArgs),
    /// Give a task a new content: its id, then the content.
    Up(UpdateArgs),
    /// Give a context a new name: its id, then the name.
    Upc(UpdateArgs),
    /// Show the tasks of the active context.
    Ls,
    /// Show the contexts.
    Lsc,
    /// Show the tasks of all contexts.
    Lsa,
    /// Add a task with the given content.
    Add(TaskArgs),
    /// Mark one or several tasks, separated by commas, as done.
    Done(TaskArgs),
    /// Delete one or several tasks, separated by commas, by id.
    Rm(TaskArgs),
    /// Delete one or several contexts, separated by commas, by name or by
    /// the place at which they are shown.
    Rmc(TaskArgs),
    /// Delete all tasks of the active context.
    Clear,
    /// Copy everything from the stored document to the remote service.
    Migrate,
}

/// The arguments of a command that changes one record.
#[derive(Debug, Clone)]
pub struct UpdateArgs {
    pub id: usize,
    pub name: String,
}

/// The argument of a command that takes one text.
#[derive(Debug, Clone)]
pub struct TaskArgs {
    pub name: String,
}

} // verus!
