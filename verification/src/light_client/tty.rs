//! The serial-port light client: finding the port and encoding frames.

use vstd::prelude::*;

use crate::color::Frame;
use crate::light_client::protocols::{encoded_frame, gamma, ordered_components};
use crate::light_client::config::ByteOrder;
use crate::light_client::LightClientError;
use crate::text::str_equal;

verus! {

/// Gamma-corrects one colour component for the serial-port lights: the
/// result is `c * c / 255`, rounded down.
pub fn component_gamma_correction(component: u8) -> (r: u8)
    ensures
        r == gamma(component),
        r as int == (component as int * component as int) / 255,
{
    let c: u32 = component as u32;
    assert(c * c <= 255 * 255) by (nonlinear_arith)
        requires
            c <= 255,
    ;
    ((c * c) / 255) as u8
}

/// The pixel bytes the serial-port lights take: for each light, green,
/// red and blue, each gamma-corrected.
pub open spec fn tty_frame_bytes_spec(frame: Seq<crate::color::Color>) -> Seq<u8> {
    Seq::new(3 * frame.len(), |i: int| gamma(ordered_components(frame[i / 3], ByteOrder::Grb)[i % 3]))
}

/// Encodes a frame for the serial-port lights.
pub fn tty_frame_bytes(frame: &Frame) -> (bytes: Vec<u8>)
    requires
        3 * frame@.len() <= usize::MAX,
    ensures
        bytes@ == tty_frame_bytes_spec(frame@),
{
    let mut bytes: Vec<u8> = Vec::new();
    let n = frame.pixels.len();
    let mut i: usize = 0;
    while i < n
        invariant
            n == frame@.len(),
            3 * n <= usize::MAX,
            i <= n,
            bytes@.len() == 3 * i,
            forall|j: int|
                0 <= j < 3 * i ==> #[trigger] bytes@[j] == gamma(
                    ordered_components(frame@[j / 3], ByteOrder::Grb)[j % 3],
                ),
        decreases n - i,
    {
        let pixel = frame.pixels[i];
        let ghost before = bytes@;
        bytes.push(component_gamma_correction(pixel.g));
        bytes.push(component_gamma_correction(pixel.r));
        bytes.push(component_gamma_correction(pixel.b));
        proof {
            assert forall|j: int| 0 <= j < 3 * (i + 1) implies #[trigger] bytes@[j] == gamma(
                ordered_components(frame@[j / 3], ByteOrder::Grb)[j % 3],
            ) by {
                if j < 3 * i {
                    assert(bytes@[j] == before[j]);
                } else {
                    assert(j / 3 == i as int);
                }
            }
        }
        i = i + 1;
    }
    assert(bytes@ =~= tty_frame_bytes_spec(frame@));
    bytes
}

/// The serial-port lights get the same bytes as a controller configured
/// for green-red-blue order.
pub proof fn lemma_tty_bytes_are_grb_encoding(frame: Seq<crate::color::Color>)
    ensures
        tty_frame_bytes_spec(frame) == encoded_frame(frame, ByteOrder::Grb),
{
    assert(tty_frame_bytes_spec(frame) =~= encoded_frame(frame, ByteOrder::Grb));
}

/// The serial-port encoding is local to each light: light `i` is sent as
/// bytes `3i`, `3i + 1` and `3i + 2`, its own green, red and blue,
/// gamma-corrected; three bytes per light.
pub proof fn lemma_tty_bytes_per_light(frame: Seq<crate::color::Color>, i: int)
    requires
        0 <= i < frame.len(),
    ensures
        tty_frame_bytes_spec(frame).len() == 3 * frame.len(),
        tty_frame_bytes_spec(frame)[3 * i] == gamma(frame[i].g),
        tty_frame_bytes_spec(frame)[3 * i + 1] == gamma(frame[i].r),
        tty_frame_bytes_spec(frame)[3 * i + 2] == gamma(frame[i].b),
{
    assert((3 * i) / 3 == i && (3 * i) % 3 == 0);
    assert((3 * i + 1) / 3 == i && (3 * i + 1) % 3 == 1);
    assert((3 * i + 2) / 3 == i && (3 * i + 2) % 3 == 2);
}

/// Encoding two frames for the serial port one after the other gives the
/// encoding of the two frames joined.
pub proof fn lemma_tty_bytes_concat(f: Seq<crate::color::Color>, g: Seq<crate::color::Color>)
    ensures
        tty_frame_bytes_spec(f + g) == tty_frame_bytes_spec(f) + tty_frame_bytes_spec(g),
{
    let a = tty_frame_bytes_spec(f + g);
    let b = tty_frame_bytes_spec(f) + tty_frame_bytes_spec(g);
    assert forall|j: int| 0 <= j < a.len() implies a[j] == b[j] by {
        if j < 3 * f.len() {
            assert(j / 3 < f.len());
        } else {
            let k = j - 3 * f.len();
            let q = k / 3;
            let r = k % 3;
            assert(k == 3 * q + r && 0 <= r < 3);
            assert(j == 3 * (f.len() + q) + r);
            assert(j / 3 == f.len() + q && j % 3 == r);
        }
    }
    assert(a =~= b);
}

/// A serial port as the system lists it: its name, and the manufacturer
/// when it is a USB port that reports one.
#[derive(Clone, Debug)]
pub struct SerialPortEntry {
    pub port_name: String,
    pub usb_manufacturer: Option<String>,
}

/// Whether a listed port is the lights' controller.
pub open spec fn is_lights_port(p: SerialPortEntry) -> bool {
    p.usb_manufacturer matches Some(m) && m@ == "krzmaz"@
}

/// The name of the first listed port whose USB manufacturer is "krzmaz",
/// if there is one.
pub fn find_lights_port(ports: &Vec<SerialPortEntry>) -> (r: Option<String>)
    ensures
        r is None <==> forall|i: int| 0 <= i < ports@.len() ==> !is_lights_port(#[trigger] ports@[i]),
        r matches Some(name) ==> exists|i: int|
            0 <= i < ports@.len() && is_lights_port(#[trigger] ports@[i])
                && name@ == ports@[i].port_name@
                && forall|j: int| 0 <= j < i ==> !is_lights_port(#[trigger] ports@[j]),
{
    let mut i: usize = 0;
    while i < ports.len()
        invariant
            i <= ports@.len(),
            forall|j: int| 0 <= j < i ==> !is_lights_port(#[trigger] ports@[j]),
        decreases ports@.len() - i,
    {
        let found = match &ports[i].usb_manufacturer {
            Some(m) => str_equal(m.as_str(), "krzmaz"),
            None => false,
        };
        if found {
            let name = ports[i].port_name.clone();
            assert(is_lights_port(ports@[i as int]));
            return Some(name);
        }
        i = i + 1;
    }
    None
}

/// What just happened while sending a frame to the serial-port lights.
#[derive(Debug)]
pub enum TtyEvent {
    /// A frame is to be sent.
    Start,
    /// Writing the length prefix succeeded or failed.
    PrefixWritten(bool),
    /// Writing the pixel bytes succeeded or failed.
    PixelsWritten(bool),
    /// Looking for the lights' port found this port, or none.
    PortFound(Option<String>),
    /// Reopening the port succeeded or failed.
    PortOpened(bool),
}

/// What to do next while sending a frame to the serial-port lights.
#[derive(Debug)]
pub enum TtyAction {
    WritePrefix,
    WritePixels,
    /// Look for the lights' port again.
    FindPort,
    /// Reopen the connection on this port.
    OpenPort(String),
    /// The send is over, with this outcome.
    Finish(Result<(), LightClientError>),
}

/// The next step of sending a frame: write the length prefix, then the
/// pixels; if the prefix cannot be written the port is looked for and
/// reopened instead, and that frame is dropped. A failed pixel write, a
/// port that cannot be found and a failed reopen all end the send with
/// `ProcessExited`; a completed write or a successful reopen ends it with
/// success.
pub fn tty_next_action(event: TtyEvent) -> (a: TtyAction)
    ensures
        match event {
            TtyEvent::Start => a is WritePrefix,
            TtyEvent::PrefixWritten(ok) => if ok {
                a is WritePixels
            } else {
                a is FindPort
            },
            TtyEvent::PixelsWritten(ok) | TtyEvent::PortOpened(ok) => if ok {
                a matches TtyAction::Finish(Ok(_))
            } else {
                a matches TtyAction::Finish(Err(LightClientError::ProcessExited))
            },
            TtyEvent::PortFound(Some(name)) => a matches TtyAction::OpenPort(n) && n@ == name@,
            TtyEvent::PortFound(None) => a matches TtyAction::Finish(
                Err(LightClientError::ProcessExited),
            ),
        },
{
    match event {
        TtyEvent::Start => TtyAction::WritePrefix,
        TtyEvent::PrefixWritten(ok) => if ok {
            TtyAction::WritePixels
        } else {
            TtyAction::FindPort
        },
        TtyEvent::PixelsWritten(ok) | TtyEvent::PortOpened(ok) => if ok {
            TtyAction::Finish(Ok(()))
        } else {
            TtyAction::Finish(Err(LightClientError::ProcessExited))
        },
        TtyEvent::PortFound(found) => match found {
            Some(name) => TtyAction::OpenPort(name),
            None => TtyAction::Finish(Err(LightClientError::ProcessExited)),
        },
    }
}

} // verus!
