//! Errors of the daemon's Unix socket server.
use vstd::prelude::*;

verus! {

/// Error type for socket server operations.
#[derive(Debug)]
pub enum SocketError {
    Io(std::io::Error),
    AlreadyBound,
    NotBound,
    ShuttingDown,
    Protocol(String),
}

} // verus!
