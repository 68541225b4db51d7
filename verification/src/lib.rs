//! Replays a tabular command list as a shell script: a verified generator
//! that turns a user table and a command table (comma-separated text) into
//! an ordered sequence of shell statements recreating a version-control
//! history with forged author identities and timestamps.

pub mod command;
pub mod errors;
pub mod generate;
pub mod text;
pub mod timestamp;
pub mod users;
