//! Capture and filter the debug output of a running target process.
//!
//! The crate holds the verified logic of a small debugger tool: decoding
//! wide-character debug strings, deduplicating repeated events, sticky
//! category filtering, the debug-session event dispatch, and the byte-exact
//! construction of the string payloads that the remote configuration
//! injector writes into the target process.

pub mod double_buffer;
pub mod filter;
pub mod qt;
pub mod session;
pub mod str_ext;
pub mod strings;
