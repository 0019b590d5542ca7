//! Core of a small chat service: the live-connection registry that says which
//! users are currently reachable, the friend-relationship state machine with
//! its pending/accepted lifecycle, the message router, and the credential
//! checks behind signup and login. Each component keeps its state as a table
//! of keyed rows and states its behaviour over that table.

pub mod auth;
pub mod friends;
pub mod registry;
pub mod router;
pub mod table;
