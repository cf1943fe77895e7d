//! Verified building blocks of two small network programs.
//!
//! The first is a concurrent TCP echo server. Its decisions are two state
//! machines: the connection [`handler`], which turns what a read or a write on
//! one connection gave into the next thing to do with that connection, and the
//! [`listener`], which does the same for the listening socket. Sockets and
//! threads stay with the caller. The module [`echo`] follows a handler over
//! the life of its connection and proves that what goes back to the peer is
//! what the peer sent. The module [`server`] puts one listener and any number
//! of handlers together and proves that connections cannot disturb each
//! other.
//!
//! The second is a command-line client of a REST API that answers in JSON:
//! [`split`] cuts option text at a separator, [`params`] holds the query
//! parameters, [`query`] builds the request URLs, [`json`] lays the answer
//! out for reading and [`cmd_error`] names what can be wrong with a command.

pub mod cmd_error;
pub mod echo;
pub mod handler;
pub mod json;
pub mod listener;
pub mod params;
pub mod query;
pub mod server;
pub mod split;
