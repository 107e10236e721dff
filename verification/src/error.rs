//! The ways a command can fail, and what is said of each.

use crate::utils::{decimal, decimal_string};
use vstd::prelude::*;

verus! {

/// Which step of opening a remote session failed.
#[derive(Debug, Clone, Copy, PartialEq, Eq, Structural)]
pub enum ConnectStage {
    /// The TCP connection could not be opened.
    Connect,
    /// No session could be set up on the connection.
    Session,
    /// The transport handshake failed.
    Handshake,
    /// The agent that holds the keys could not be asked.
    Agent,
    /// The host did not accept any of the agent's keys.
    Authentication,
    /// The file-transfer subsystem could not be started.
    Subsystem,
}

/// What kind of record an identifier was looked up among.
#[derive(Debug, Clone, Copy, PartialEq, Eq, Structural)]
pub enum EntityKind {
    Task,
    Context,
}

/// Why a command was abandoned. No failed command changes the collection.
#[derive(Debug, Clone, Copy, PartialEq, Eq, Structural)]
pub enum StoreError {
    /// There is no stored document, and none was to be created. `remote`
    /// tells whether it was looked for on another machine.
    NotFound { remote: bool },
    /// The remote side could not be reached or would not let us in.
    ConnectionFailure { stage: ConnectStage },
    /// No context is active, and the command needs one.
    NoActiveContext,
    /// No task or context carries the given id.
    NotFoundEntity { kind: EntityKind, id: usize },
    /// An id token is not a number.
    MalformedInput,
}

/// What is said of a failure.
pub open spec fn message_of(error: StoreError) -> Seq<char> {
    match error {
        StoreError::NotFound { remote } => if remote {
            "No file found on remote server: {{config.ssh_ip}} -> {{path_str}}"@
        } else {
            "No data file found: {{file_path}}"@
        },
        StoreError::ConnectionFailure { stage } => match stage {
            ConnectStage::Connect => "TCP connection failed"@,
            ConnectStage::Session => "Error while creating TCP Session"@,
            ConnectStage::Handshake => "Error with the TCP connection"@,
            ConnectStage::Agent => {
                "Error when setting user agent, you might need to add ssh key to ssh-agent"@
            },
            ConnectStage::Authentication => "Error when getting SFTP connection"@,
            ConnectStage::Subsystem => "Sftp subsystem initialization failed"@,
        },
        StoreError::NoActiveContext => {
            "No current active context, let's create one using task use {name}"@
        },
        StoreError::NotFoundEntity { kind, id } => match kind {
            EntityKind::Task => "No task found with this ID: "@ + decimal(id as nat),
            EntityKind::Context => "No context found with this ID: "@ + decimal(id as nat),
        },
        StoreError::MalformedInput => "You can only use Ids"@,
    }
}

impl StoreError {
    /// What to tell the user about this failure.
    pub fn message(&self) -> (text: String)
        ensures
            text@ == message_of(*self),
    {
        match self {
            StoreError::NotFound { remote } => if *remote {
                String::from_str(
                    "No file found on remote server: {{config.ssh_ip}} -> {{path_str}}",
                )
            } else {
                String::from_str("No data file found: {{file_path}}")
            },
            StoreError::ConnectionFailure { stage } => match stage {
                ConnectStage::Connect => String::from_str("TCP connection failed"),
                ConnectStage::Session => String::from_str("Error while creating TCP Session"),
                ConnectStage::Handshake => String::from_str("Error with the TCP connection"),
                ConnectStage::Agent => String::from_str(
                    "Error when setting user agent, you might need to add ssh key to ssh-agent",
                ),
                ConnectStage::Authentication => String::from_str(
                    "Error when getting SFTP connection",
                ),
                ConnectStage::Subsystem => String::from_str("Sftp subsystem initialization failed"),
            },
            StoreError::NoActiveContext => String::from_str(
                "No current active context, let's create one using task use {name}",
            ),
            StoreError::NotFoundEntity { kind, id } => match kind {
                EntityKind::Task => String::from_str("No task found with this ID: ").concat(
                    decimal_string(*id).as_str(),
                ),
                EntityKind::Context => String::from_str("No context found with this ID: ").concat(
                    decimal_string(*id).as_str(),
                ),
            },
            StoreError::MalformedInput => String::from_str("You can only use Ids"),
        }
    }
}

} // verus!
