//! The logic of a command line client for the Mailgun API: which site's credentials a request
//! uses, which requests the commands make, when a request is sent again, how the pages of a list
//! are put together, and what the user reads of the answers.
//!
//! Nothing here reads a file, sends a request or prints: functions take what was read or
//! received, and give back what to send, to save or to show.

pub mod api;
pub mod client;
pub mod commands;
pub mod config;
pub mod config_commands;
pub mod message;
pub mod paging;
pub mod report;
pub mod retry;
pub mod sites;
pub mod stats;
pub mod storage;
pub mod text;
pub mod time;
