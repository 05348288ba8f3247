//! The command language of an interactive debugger for the keys of an
//! on-disk B-tree store: its grammar, the resolution of `type.field`
//! references against a table of layouts, and the control of a session.
//!
//! The library performs no input or output. It turns text into typed
//! commands, commands into instructions for the storage engine, and the
//! events of a session into the actions its driver has to carry out.
//!
//! - [`text`], [`position`], [`command`], [`parser`]: the grammar, from
//!   characters to commands.
//! - [`render`], [`spelling`], [`trailing`]: the canonical text of a
//!   command, and what is proved of the grammar as a whole.
//! - [`catalog`], [`resolver`], [`dispatch`], [`listing`]: from a command
//!   to the instruction for the storage engine.
//! - [`session`]: the states of a session and its transitions.

pub mod catalog;
pub mod command;
pub mod dispatch;
pub mod listing;
pub mod parser;
pub mod position;
pub mod render;
pub mod resolver;
pub mod session;
pub mod spelling;
pub mod text;
pub mod trailing;
