//! The ways a login attempt fails.

use vstd::prelude::*;

verus! {

/// Why a login attempt failed, named after the kind of I/O error that reports it.
#[derive(Debug, Clone, Copy, PartialEq, Eq, Structural)]
pub enum LoginError {
    /// The connectivity probe or the login request could not be sent.
    ConnectionRefused,
    /// A reply was not text, or not the page that was expected.
    InvalidData,
    /// The portal answered the login request without reporting success.
    PermissionDenied,
}

} // verus!
