//! The operator's console: keys, terminal operations and the commands that
//! reach into the hub.

pub mod commands;
pub mod editor;
pub mod key;
pub mod ops;
