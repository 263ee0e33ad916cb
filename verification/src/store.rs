//! The storage collaborator's path layout: each user's records live in a
//! directory named after the user under a fixed prefix.  The persistence
//! itself — serialization and the filesystem — belongs to the surrounding
//! application; the core only derives the path.

use vstd::prelude::*;
use vstd::string::StringExecFns;

verus! {

/// The directory that holds one user's face records: the store prefix, a
/// path separator, and the user id.
pub fn user_store_path(prefix: &str, user_id: &str) -> (r: String)
    ensures
        r@ == prefix@ + "/"@ + user_id@,
{
    let mut s = String::from_str(prefix);
    s.append("/");
    s.append(user_id);
    s
}

} // verus!
