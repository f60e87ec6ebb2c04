//! Bookkeeping of the JSON-RPC link to an animation plugin process.

use vstd::prelude::*;

verus! {

/// Why a JSON-RPC exchange with a plugin failed.
#[derive(Debug)]
pub enum JsonRpcEndpointError {
    ProcessExited,
    InvalidResponse(String),
}

/// The message of an endpoint error, as its `Display` shows it.
pub open spec fn endpoint_error_message(e: JsonRpcEndpointError) -> Seq<char> {
    match e {
        JsonRpcEndpointError::ProcessExited => "endpoint process exited"@,
        JsonRpcEndpointError::InvalidResponse(m) => "endpoint returned invalid response: "@ + m@,
    }
}

impl JsonRpcEndpointError {
    pub fn message(&self) -> (s: String)
        ensures
            s@ == endpoint_error_message(*self),
    {
        match self {
            JsonRpcEndpointError::ProcessExited => String::from_str("endpoint process exited"),
            JsonRpcEndpointError::InvalidResponse(m) => {
                let s = String::from_str("endpoint returned invalid response: ");
                s.concat(m.as_str())
            },
        }
    }
}

/// Takes the id of the next request: one more than the last one (the first
/// request, after 0, gets 1).
pub fn next_message_id(last_id: &mut usize) -> (id: usize)
    requires
        *old(last_id) < usize::MAX,
    ensures
        id == *old(last_id) + 1,
        *final(last_id) == id,
{
    *last_id = *last_id + 1;
    *last_id
}

/// The outcome of reading a response line of `count` bytes: an empty read
/// means the plugin process has exited.
pub fn check_response_read(count: usize) -> (r: Result<(), JsonRpcEndpointError>)
    ensures
        r is Ok <==> count != 0,
        r matches Err(e) ==> e is ProcessExited,
{
    if count == 0 {
        Err(JsonRpcEndpointError::ProcessExited)
    } else {
        Ok(())
    }
}

} // verus!
