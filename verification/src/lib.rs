//! Verified core of a Thunderbird unread-mail counter.
//!
//! The library holds the logic of the tool: the layered settings merge
//! (defaults, then a user configuration file, then invocation arguments),
//! profile discovery from the index file, expansion of relative mailbox
//! paths, the tolerant last-match extraction of the unread count from a
//! mailbox file's text, and the assembly of the printed output. All
//! filesystem reads, argument parsing and serialization stay outside, in
//! the thin unverified front end, which hands this library plain values.

pub mod errors;
pub mod mailbox;
pub mod output;
pub mod paths;
pub mod render;
pub mod resolve;
pub mod settings;

pub use errors::RunError;
