//! Process-control core of a breakpoint debugger: wait-status decoding,
//! breakpoint patching of code words, the inferior's controller state and
//! frame-pointer stack unwinding, with the commands that drive them.
pub mod address;
pub mod command;
pub mod inferior;
pub mod patch;
pub mod session;
pub mod status;
pub mod unwind;
