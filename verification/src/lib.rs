//! Discovery of the hosts of networks, of the way to them, their services and vulnerabilities.
//!
//! The discovery works through other programs. The library says which command to run next and
//! what follows from its output; running the command, reading files and saving the result is left
//! to the caller.

pub mod command;
pub mod config;
pub mod discover;
pub mod hosts;
pub mod json;
pub mod portscan;
pub mod report;
pub mod route;
pub mod run;
pub mod scan;
pub mod scripts;
pub mod task;
pub mod text;
pub mod tmp;
pub mod windows;
