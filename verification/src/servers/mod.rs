//! The tool servers: Bitwarden vault access and Google Workspace (Gmail).
pub mod bitwarden;
pub mod workspace;
