//! Verified core of the SMCP tool suite: the decisions behind the Gmail and
//! Bitwarden tools (mailbox names, search queries, UID selection, header
//! extraction, reply threading, credential files, Bitwarden sessions and
//! replies), each with a contract proved by Verus.
pub mod text;
pub mod setup;
pub mod servers;
