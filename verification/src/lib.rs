//! A directory of the sessions of a running terminal multiplexer and of
//! their windows.
//!
//! The multiplexer is asked for two listings, one of its sessions and one of
//! its windows. [`grammar`] reads a line of either, [`builder`] makes the
//! [`directory`] from the two texts, [`search`] selects from it the tabs
//! whose name holds a term, [`render`] writes a directory out, and
//! [`dispatch`] decides which request, if any, a selection allows. Nothing
//! here talks to the multiplexer: texts come in, and a text or a request goes
//! out.

pub mod builder;
pub mod digits;
pub mod directory;
pub mod dispatch;
pub mod error;
pub mod grammar;
pub mod model;
pub mod render;
pub mod search;
pub mod text;
