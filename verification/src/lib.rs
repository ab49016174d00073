//! The decisions of `agentlb`, which runs a command in one of several sessions and keeps a
//! supervisor that tracks how much of its limits each session has used.
pub mod accounts;
pub mod cli;
pub mod config;
pub mod daemon;
pub mod error;
pub mod flow;
pub mod json;
pub mod map;
pub mod numbers;
pub mod path;
pub mod pick;
pub mod program;
pub mod round;
pub mod runtime;
pub mod session;
pub mod state;
pub mod status;
pub mod supervisor;
pub mod text;
pub mod time;
