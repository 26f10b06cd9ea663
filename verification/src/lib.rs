//! nrun — run a long-lived command (dev server, docker container) inside a
//! dedicated tmux window, stream its output back for transparent capture, and
//! own the process lifetime so it is cleaned up on exit or signal.
//!
//! The library holds the logic, verified: the tmux and docker argument
//! vectors, the parsers of tmux output, the capture-log naming, the decisions
//! of log relaying, and the supervisor as a state machine. The binary performs
//! the I/O those decisions call for.

pub mod cli;
pub mod docker;
pub mod relay_io;
pub mod supervisor;
pub mod tail;
pub mod text;
pub mod tmux;
