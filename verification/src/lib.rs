//! `rat`: run one shell command in many sibling folders at once, with a small persisted
//! configuration. This crate holds the decisions and text handling, each with its contract;
//! the binary around it does the process, file and terminal work.
pub mod text;
pub mod dirs;
pub mod config;
pub mod timeout;
pub mod cli;
pub mod fep;
pub mod process;
pub mod help;
