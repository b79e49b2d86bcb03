//! A declarative task runner: named shell commands and sequences, resolved by
//! name, filled in with variables and handed to a system shell one step at a
//! time.

pub mod cli;
pub mod text;
pub mod yaml;
