//! Verified core of a command-line client for the Art Mode of Samsung "The Frame" TVs.

pub mod error;
pub mod text;
pub mod json;
pub mod client;
pub mod calendar;
pub mod clock;
pub mod discovery;
pub mod account;
pub mod cli;
pub mod commands;
pub mod readme;
