//! The older, blocking JSON-RPC animation plugin.

use vstd::prelude::*;

verus! {

/// Why a JSON-RPC exchange with a plugin failed; the payloads are the
/// messages of the underlying errors.
#[derive(Debug)]
pub enum JsonRpcEndpointError {
    ProcessExited,
    InvalidResponse(String),
    Other(String),
}

/// The name a plugin reports, or "Animation Plugin" when it could not
/// tell.
pub fn animation_name_or_default(reported: Option<String>) -> (name: String)
    ensures
        match reported {
            Some(n) => name@ == n@,
            None => name@ == "Animation Plugin"@,
        },
{
    match reported {
        Some(n) => n,
        None => String::from_str("Animation Plugin"),
    }
}

} // verus!
