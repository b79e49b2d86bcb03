//! What a request does: resolving names, filling in variables, and deciding
//! step by step what is run next.

pub mod base;
pub mod cmd;
pub mod command_handler;
pub mod list;
pub mod seq;
pub mod template;
