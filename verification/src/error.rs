//! Errors of the saved-connection store.

use vstd::prelude::*;

verus! {

/// What can go wrong when a saved connection is looked up, stored or removed.
#[derive(Debug)]
pub enum ConnectionError {
    NoConnection,
    NoSuchConnection(String),
    Sled(sled::Error),
    Bincode(Box<bincode::ErrorKind>),
    Io(std::io::Error),
    UTF8(std::str::Utf8Error),
}

} // verus!
