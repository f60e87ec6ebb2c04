//! Showing one frame on several light clients at once.

use vstd::prelude::*;

use crate::light_client::config::{LightsConfig, LightsEndpoint, TtyLightsConfig};
use crate::light_client::{error_message, LightClientError};
use crate::text::str_equal;

verus! {

/// The messages of `errors` joined by `"; "`, in order.
pub open spec fn joined_messages(errors: Seq<LightClientError>) -> Seq<char>
    decreases errors.len(),
{
    if errors.len() == 0 {
        Seq::empty()
    } else if errors.len() == 1 {
        error_message(errors[0])
    } else {
        joined_messages(errors.drop_last()) + "; "@ + error_message(errors.last())
    }
}

/// The errors among `results`, in order.
pub open spec fn errors_of(results: Seq<Result<(), LightClientError>>) -> Seq<LightClientError>
    decreases results.len(),
{
    if results.len() == 0 {
        Seq::empty()
    } else {
        let rest = errors_of(results.drop_last());
        match results.last() {
            Ok(_) => rest,
            Err(e) => rest.push(e),
        }
    }
}

/// The outcome of showing a frame on all clients, given each client's
/// outcome: success when at least one client succeeded; when all failed,
/// `ProcessExited` if every failure was `ProcessExited` (so also when there
/// are no clients at all), else a lost connection whose reason joins every
/// error message with `"; "`.
pub fn combined_result(results: &Vec<Result<(), LightClientError>>) -> (r: Result<
    (),
    LightClientError,
>)
    ensures
        r is Ok <==> exists|i: int| 0 <= i < results@.len() && #[trigger] results@[i] is Ok,
        r matches Err(e) ==> (e is ProcessExited <==> forall|i: int|
            0 <= i < results@.len() ==> #[trigger] results@[i] matches Err(
                LightClientError::ProcessExited,
            )),
        r matches Err(e) ==> (e is ProcessExited || e is ConnectionLost),
        r matches Err(LightClientError::ConnectionLost { reason }) ==> reason@ == joined_messages(
            errors_of(results@),
        ),
{
    let mut any_ok = false;
    let mut all_exited = true;
    let mut reason = String::new();
    let ghost mut errors: Seq<LightClientError> = Seq::empty();
    let mut n_errors: usize = 0;
    let mut i: usize = 0;
    while i < results.len()
        invariant
            i <= results@.len(),
            errors == errors_of(results@.take(i as int)),
            n_errors == errors.len(),
            n_errors <= i,
            reason@ == joined_messages(errors),
            any_ok <==> exists|j: int| 0 <= j < i && #[trigger] results@[j] is Ok,
            all_exited <==> forall|j: int|
                0 <= j < i ==> #[trigger] results@[j] matches Err(LightClientError::ProcessExited),
        decreases results@.len() - i,
    {
        assert(results@.take(i + 1).drop_last() =~= results@.take(i as int));
        match &results[i] {
            Ok(_) => {
                any_ok = true;
                all_exited = false;
            },
            Err(e) => {
                if !e.is_process_exited() {
                    all_exited = false;
                }
                if n_errors > 0 {
                    reason.append("; ");
                }
                let m = e.message();
                reason.append(m.as_str());
                n_errors = n_errors + 1;
                proof {
                    errors = errors.push(*e);
                    assert(errors.drop_last() =~= errors_of(results@.take(i as int)));
                }
            },
        }
        i = i + 1;
    }
    assert(results@.take(results@.len() as int) =~= results@);
    if any_ok {
        Ok(())
    } else if all_exited {
        Err(LightClientError::ProcessExited)
    } else {
        Err(LightClientError::ConnectionLost { reason })
    }
}


/// The light client to build for one configured endpoint.
#[derive(Clone, Debug)]
pub enum ClientKind {
    /// An HTTP client posting to the URL, with back-off.
    Http(String),
    /// A TCP client for the URL, with back-off.
    Tcp(String),
    /// A UDP client for the URL.
    Udp(String),
    /// The serial-port client found by detection.
    Tty,
}

/// Which client a configured endpoint calls for: by the URL's scheme for
/// a remote endpoint (`http`, `tcp`, `udp`; any other scheme is refused
/// with "Unknown remote client protocol: " and the scheme), and the
/// detected serial port for a TTY endpoint. An explicit device path is not
/// supported and is left out.
pub fn client_kind(config: &LightsConfig) -> (r: Result<ClientKind, String>)
    requires
        !(config.endpoint matches LightsEndpoint::Tty(TtyLightsConfig::Path(_))),
    ensures
        match config.endpoint {
            LightsEndpoint::Remote(u) => if u.scheme@ == "http"@ {
                r matches Ok(ClientKind::Http(s)) && s@ == u.serialization@
            } else if u.scheme@ == "tcp"@ {
                r matches Ok(ClientKind::Tcp(s)) && s@ == u.serialization@
            } else if u.scheme@ == "udp"@ {
                r matches Ok(ClientKind::Udp(s)) && s@ == u.serialization@
            } else {
                r matches Err(m) && m@ == "Unknown remote client protocol: "@ + u.scheme@
            },
            LightsEndpoint::Tty(_) => r matches Ok(ClientKind::Tty),
        },
{
    match &config.endpoint {
        LightsEndpoint::Remote(u) => {
            if str_equal(u.scheme.as_str(), "http") {
                Ok(ClientKind::Http(u.serialization.clone()))
            } else if str_equal(u.scheme.as_str(), "tcp") {
                Ok(ClientKind::Tcp(u.serialization.clone()))
            } else if str_equal(u.scheme.as_str(), "udp") {
                Ok(ClientKind::Udp(u.serialization.clone()))
            } else {
                let m = String::from_str("Unknown remote client protocol: ");
                Err(m.concat(u.scheme.as_str()))
            }
        },
        LightsEndpoint::Tty(_) => Ok(ClientKind::Tty),
    }
}

} // verus!
