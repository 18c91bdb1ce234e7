//! The core of a tiling window-manager daemon: a live in-memory model of
//! tracked windows and outputs, a pure mapping from commands to
//! side-effect descriptions, the line protocol spoken to layout-engine
//! child processes, and the built-in layout algorithms.  Everything here
//! is pure computation over plain values; the OS, socket and subprocess
//! edges live with the callers.

pub mod cascade;
pub mod cli;
pub mod command;
pub mod display;
pub mod effect;
pub mod event;
pub mod hotkey;
pub mod hybrid;
pub mod layouts;
pub mod master_stack;
pub mod protocol;
pub mod state;
pub mod strutil;
pub mod tag;
pub mod translate;
pub mod window;
