//! A schema-less key-value store whose tables are chosen per request.
//!
//! The library holds the logic of the store: how a caller's table name is
//! reduced to a physical identifier, which statements each operation sends to
//! the relational backend (with keys and values only ever bound as
//! parameters), what those statements do to the backend's contents, an
//! in-memory backend that executes them exactly so, and how each outcome is
//! turned into the reply that the HTTP layer sends back.

pub mod command;
pub mod database;
pub mod memory;
pub mod reply;
pub mod response;
pub mod tables;
pub mod utils;
