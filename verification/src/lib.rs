//! Verified core of a tool that backs up application databases living inside
//! runtime containers: it plans the container-side commands, decides the
//! backup lifecycle step by step, collects batch results, and enforces a
//! retention policy over host-stored artifacts.
pub mod backup;
pub mod cli;
pub mod config;
pub mod docker;
pub mod error;
pub mod text;

pub use backup::BackupManager;
pub use cli::Cli;
pub use cli::Commands;
pub use config::Config;
pub use config::DatabaseConfig;
pub use docker::DockerManager;
pub use error::BackupError;
