//! Slide-builder-owned provider credentials, kept under a keyring service of
//! their own so the `rho` application's credentials are never read or changed.
use crate::text::{chars_of, trim, trim_bounds};
use vstd::prelude::*;

verus! {

broadcast use vstd::string::group_string_axioms;

/// The OS-keyring service that holds slide-builder's secrets.
pub const KEYRING_SERVICE: &'static str = "slide-builder";

/// The credential store under `KEYRING_SERVICE`.
#[derive(Clone, Copy, Debug, Default)]
pub struct SlideCredentialStore;

/// Why an API key was refused.
#[derive(Clone, Copy, Debug, PartialEq, Eq, Structural)]
pub enum ApiKeyError {
    /// The key is empty or only white space.
    Empty,
}

impl ApiKeyError {
    /// The message printed for the error.
    pub fn message(&self) -> (r: &'static str)
        ensures
            r@ == "API key cannot be empty"@,
    {
        "API key cannot be empty"
    }
}

/// An API key must hold something other than white space.
pub fn check_api_key(key: &str) -> (r: Result<(), ApiKeyError>)
    ensures
        r is Err <==> trim(key@).len() == 0,
{
    let v = chars_of(key);
    let (a, b) = trim_bounds(&v, 0, v.len());
    assert(v@.subrange(0, v@.len() as int) =~= v@);
    if a == b {
        Err(ApiKeyError::Empty)
    } else {
        Ok(())
    }
}

} // verus!
