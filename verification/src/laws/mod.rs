//! What the library promises of its operations: laws over what is handed in
//! and what comes out, whatever happens in between.

pub mod cache;
pub mod files;
pub mod layout;
pub mod matching;
pub mod pins;
pub mod protocol;
pub mod saving;
pub mod starting;
pub mod templates;
pub mod texts;
pub mod told;
pub mod waiting;
