//! Hub and relay coordination for short-lived broadcast rooms.
//!
//! A hub fronts a fleet of relays. It keeps the relays it knows in a
//! [`relay_registry::RelayRegistry`], asks them in turn to open a room, and
//! remembers which relay owns which room. A relay keeps its rooms in a
//! [`room_registry::RoomRegistry`] and its live connections in a
//! [`connection::ConnectionRegistry`]; what a connection publishes goes to
//! every other connection ([`fanout`]). Both are built on one bounded
//! registry, [`registry::Cache`], and both stop on one signal
//! ([`shutdown`]).
//!
//! The library decides and keeps state; it opens no socket, makes no HTTP
//! call and reads no terminal. Where a decision waits on the outside world,
//! the library is a state machine: the caller reports what happened and is
//! told what to do next.

pub mod cards;
pub mod connection;
pub mod console;
pub mod consts;
pub mod endpoints;
pub mod error;
pub mod fanout;
pub mod http;
pub mod ident;
pub mod math;
pub mod payload;
pub mod registry;
pub mod relay_registry;
pub mod room_index;
pub mod room_registry;
pub mod routes;
pub mod shutdown;
pub mod text;
pub mod wire;
