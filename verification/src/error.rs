//! The error taxonomy of the backup tool. Configuration problems, container
//! runtime failures and host filesystem failures are kept apart, because the
//! orchestrator treats them differently.
use vstd::prelude::*;

verus! {

use vstd::string::StringExecFns;

/// An error surfaced by the backup tool.
#[derive(Debug, Clone)]
pub enum BackupError {
    /// Bad or missing target configuration, or an unresolvable target name.
    Config(String),
    /// A failure interacting with the container runtime.
    Docker(String),
    /// A network failure.
    Network(String),
    /// A host filesystem failure.
    FileSystem(String),
    /// A failure reported by the remote backup endpoint.
    OdooApi(String),
    /// Anything else.
    Unknown(String),
}

impl BackupError {
    /// The human-readable rendering of this error: a fixed prefix naming the
    /// category, then the carried detail.
    pub open spec fn spec_message(self) -> Seq<char> {
        match self {
            BackupError::Config(m) => "Configuration error: "@ + m@,
            BackupError::Docker(m) => "Docker error: "@ + m@,
            BackupError::Network(m) => "Network error: "@ + m@,
            BackupError::FileSystem(m) => "File system error: "@ + m@,
            BackupError::OdooApi(m) => "Odoo API error: "@ + m@,
            BackupError::Unknown(m) => "Unknown error: "@ + m@,
        }
    }

    /// Renders the error as text.
    pub fn message(&self) -> (r: String)
        ensures
            r@ == self.spec_message(),
    {
        match self {
            BackupError::Config(m) => "Configuration error: ".to_owned().concat(m.as_str()),
            BackupError::Docker(m) => "Docker error: ".to_owned().concat(m.as_str()),
            BackupError::Network(m) => "Network error: ".to_owned().concat(m.as_str()),
            BackupError::FileSystem(m) => "File system error: ".to_owned().concat(m.as_str()),
            BackupError::OdooApi(m) => "Odoo API error: ".to_owned().concat(m.as_str()),
            BackupError::Unknown(m) => "Unknown error: ".to_owned().concat(m.as_str()),
        }
    }
}

} // verus!
