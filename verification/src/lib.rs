//! The verified core of a small file-sharing server and its client: the
//! `|`-separated wire command format, the server's user, file and connection
//! records, and the decisions the server and client make between their I/O.

pub mod command;
pub mod file;
pub mod user;
pub mod connections;
pub mod server;
pub mod client;
