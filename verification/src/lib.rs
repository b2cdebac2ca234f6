//! Decision logic of a multi-connection file downloader.
//!
//! The crate plans the byte ranges of a download, interprets what the server
//! answers, accounts for every byte written to a partial file and sequences
//! the merge of the partial files. It performs no input or output of its own:
//! a caller carries out the actions that the library hands back and reports
//! what happened.

pub mod args;
pub mod error;
pub mod text;
pub mod url_validator;
pub mod downloader;
pub mod concurrency;
pub mod daemonize;
pub mod filesystem;
pub mod progress;
pub mod run;
