//! Core of a desktop bridge to a conversational database-assistant agent:
//! conversation history, prompt assembly, the streaming session protocol,
//! forensic log records, runtime search-path set-up and the command façade.

pub mod text;
pub mod prompt;
pub mod stream;
pub mod session;
pub mod commands;
pub mod forensic;
pub mod bootstrap;
