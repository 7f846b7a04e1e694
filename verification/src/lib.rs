//! iris: the verified core of a niri toolkit.
#![allow(unused_imports)]

pub mod text;
pub mod json;
pub mod laws;
pub mod bridge;
pub mod table;
pub mod seqs;
pub mod order;
pub mod snapshot;
pub mod client;
pub mod config;
pub mod notify;
pub mod paths;
pub mod pin;
pub mod scratchpad;
pub mod time;
