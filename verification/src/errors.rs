use vstd::prelude::*;

verus! {

/// The library's error taxonomy: configuration or key-file problems (fatal at
/// startup), authenticated-decryption failures (never masked as data), unknown
/// usernames or aliases (recoverable), protocol failures during the device
/// flow, filesystem failures while persisting, and invalid operator input.
#[derive(Clone, Copy, Debug, PartialEq, Eq, Structural)]
pub enum GitSockError {
    Config,
    Integrity,
    NotFound,
    Protocol,
    Persistence,
    Input,
}

} // verus!
