//! A local credential vault: named secrets kept encrypted under a master
//! password, the versioned store they rest in, and the lifecycle of the
//! service that hands them out.
//!
//! The library holds the rules; sockets, the database connection and the
//! event loop live with the caller.

pub mod bytes;
pub mod crypto;
pub mod db;
pub mod error;
pub mod generate;
pub mod server;
pub mod service;
pub mod transfer;

pub use server::start as start_server;
