//! Google Workspace tools.
pub mod gmail;
pub mod message;
pub mod outgoing;
pub mod flows;

pub use gmail::GmailService;
