//! Clients that send frames to the lights.

pub mod backoff;
pub mod combined;
pub mod config;
pub mod protocols;
pub mod tty;

use vstd::prelude::*;

verus! {

/// Why a frame could not be shown.
#[derive(Clone, Debug)]
pub enum LightClientError {
    Unlikely,
    ConnectionLost { reason: String },
    ProcessExited,
}

/// The text of an error, as its `Display` shows it.
pub open spec fn error_message(e: LightClientError) -> Seq<char> {
    match e {
        LightClientError::Unlikely => "unlikely"@,
        LightClientError::ConnectionLost { reason } => "connection to the light client lost: "@
            + reason@,
        LightClientError::ProcessExited => "light client process exited"@,
    }
}

impl LightClientError {
    /// The error's message.
    pub fn message(&self) -> (s: String)
        ensures
            s@ == error_message(*self),
    {
        match self {
            LightClientError::Unlikely => String::from_str("unlikely"),
            LightClientError::ConnectionLost { reason } => {
                let s = String::from_str("connection to the light client lost: ");
                s.concat(reason.as_str())
            },
            LightClientError::ProcessExited => String::from_str("light client process exited"),
        }
    }

    /// A lost connection with the given reason.
    pub fn connection_lost(reason: &str) -> (e: LightClientError)
        ensures
            e matches LightClientError::ConnectionLost { reason: r } && r@ == reason@,
    {
        LightClientError::ConnectionLost { reason: String::from_str(reason) }
    }

    pub fn is_process_exited(&self) -> (b: bool)
        ensures
            b == (*self is ProcessExited),
    {
        match self {
            LightClientError::ProcessExited => true,
            _ => false,
        }
    }
}

} // verus!
