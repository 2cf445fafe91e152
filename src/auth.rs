//! The credential check in front of the storage operations.
use vstd::prelude::*;
use crate::text::str_eq;

verus! {

/// Whether a login request names the one configured account, `admin`, with
/// its password, `admin`.
pub fn credentials_match(username: &str, password: &str) -> (r: bool)
    ensures
        r == (username@ == "admin"@ && password@ == "admin"@),
{
    str_eq(username, "admin") && str_eq(password, "admin")
}

} // verus!
