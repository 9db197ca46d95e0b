//! What can go wrong in the cache.

use vstd::prelude::*;

verus! {

/// The failures the cache reports for a single feed. None of them concerns
/// any other feed.
#[derive(Clone, Copy, Debug, PartialEq, Eq, Structural)]
pub enum Error {
    /// The feed's address is no URL, or it names no domain.
    InvalidUrl,
    /// What the cache holds for the feed cannot be read back, or what is to
    /// be stored cannot be written down.
    Storage,
}

impl Error {
    /// A line for the log.
    pub fn message(&self) -> (r: &'static str)
        ensures
            r@ == match *self {
                Error::InvalidUrl => "the feed's address is no URL with a domain"@,
                Error::Storage => "the cache holds what cannot be read, or cannot take what is stored"@,
            },
    {
        match self {
            Error::InvalidUrl => "the feed's address is no URL with a domain",
            Error::Storage => "the cache holds what cannot be read, or cannot take what is stored",
        }
    }
}

} // verus!
