//! The core of a small single-threaded HTTP server: a route table, the
//! read/write state machine of each connection, a bounded registry of live
//! connections keyed by token, and the decisions the reactor takes on each
//! readiness event. Socket I/O is left to the caller, which hands in the result
//! of each read or write attempt. Also here: the column layout of a text table.

pub mod conn;
pub mod http;
pub mod registry;
pub mod route;
pub mod server;
pub mod table;
