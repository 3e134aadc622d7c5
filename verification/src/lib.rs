//! Supervision of long-running child processes: bounded capture of their
//! output, a table of tracked runs, and the escalating protocol that stops
//! them.

pub mod buffer;
pub mod encoding;
pub mod fallback;
pub mod mcp;
pub mod process;
pub mod registry;
pub mod terminal;
pub mod termination;
pub mod text;
pub mod validation;
