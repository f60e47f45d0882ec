//! What travels between a scheduler process and the program that commands
//! it over a socket: requests, responses, their bytes on the wire, and the
//! errors of the exchange. Opening sockets, reading and writing are left to
//! the caller.
pub mod connection;
pub mod error;
pub mod request;
pub mod response;
pub mod text;
pub mod wire;
