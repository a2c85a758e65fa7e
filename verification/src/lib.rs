//! The core of a planning-poker host.
//!
//! A host holds rooms in which a small group estimates tickets by voting.
//! Participants reach the host over live connections; where they cannot, a
//! relay mirrors the host's rooms under a public address.
//!
//! Everything here is a function from state and input to state and output:
//! nothing reads a socket, a file or waits. The caller moves the bytes. It
//! hands decoded events in, and takes out what is queued for the clients
//! and for the relay.
//!
//! - [`room`]: the records of a session, and what can be done to one room.
//! - [`state`]: the store of the rooms, of their invite codes and of the
//!   live connections.
//! - [`api`]: the protocol of one live connection, and the requests that
//!   need none.
//! - [`commands`]: what the host's user does to a room.
//! - [`relay`]: the host's side of the mirroring protocol.
//! - [`laws`]: what holds across several operations.
//! - [`jira`], [`credentials`], [`network`]: what the host computes for its
//!   collaborators: the issue tracker, the credentials on disk, and the
//!   addresses under which it is reached.
//! - [`index`], [`ident`], [`codec`], [`text`], [`scan`]: what the others
//!   stand on.

pub mod api;
pub mod codec;
pub mod commands;
pub mod credentials;
pub mod ident;
pub mod index;
pub mod jira;
pub mod laws;
pub mod network;
pub mod relay;
pub mod room;
pub mod scan;
pub mod state;
pub mod text;
