//! Byte encodings of frames sent to the light controllers.

use vstd::prelude::*;

use crate::color::{Color, Frame};
use crate::light_client::config::ByteOrder;
use crate::light_client::LightClientError;
use crate::text::{strip_prefix_or_self, without_prefix};

verus! {

/// The gamma curve the lights expect: `c * c / 255`, rounded down.
pub open spec fn gamma(c: u8) -> u8 {
    ((c as int * c as int) / 255) as u8
}

/// Gamma-corrects one colour component: the result is `c * c / 255`
/// rounded down, that is `(c / 255)^2 * 255` truncated.
pub fn gamma_correction(component: u8) -> (r: u8)
    ensures
        r == gamma(component),
        r as int == (component as int * component as int) / 255,
{
    let c: u32 = component as u32;
    assert(c * c <= 255 * 255) by (nonlinear_arith)
        requires
            c <= 255,
    ;
    ((c * c) / 255) as u8
}


/// Gamma correction never brightens a component.
pub proof fn lemma_gamma_never_brightens(c: u8)
    ensures
        gamma(c) <= c,
{
    assert((c as int * c as int) / 255 <= c as int) by (nonlinear_arith)
        requires
            0 <= c <= 255,
    ;
}

/// Gamma correction keeps the order of components.
pub proof fn lemma_gamma_monotonic(a: u8, b: u8)
    requires
        a <= b,
    ensures
        gamma(a) <= gamma(b),
{
    assert(a as int * a as int <= b as int * b as int) by (nonlinear_arith)
        requires
            0 <= a <= b,
    ;
    assert((a as int * a as int) / 255 <= (b as int * b as int) / 255) by (nonlinear_arith)
        requires
            a as int * a as int <= b as int * b as int,
    ;
    lemma_gamma_exact(a);
    lemma_gamma_exact(b);
}

proof fn lemma_gamma_exact(c: u8)
    ensures
        gamma(c) as int == (c as int * c as int) / 255,
{
    assert(0 <= (c as int * c as int) / 255 <= 255) by (nonlinear_arith)
        requires
            0 <= c <= 255,
    ;
}

/// Gamma correction keeps "off" off and "full" full.
pub proof fn lemma_gamma_fixes_extremes()
    ensures
        gamma(0) == 0,
        gamma(255) == 255,
{
}

/// The three component bytes of a colour in the order the lights expect.
pub open spec fn ordered_components(c: Color, order: ByteOrder) -> Seq<u8> {
    match order {
        ByteOrder::Rgb => seq![c.r, c.g, c.b],
        ByteOrder::Grb => seq![c.g, c.r, c.b],
        ByteOrder::Bgr => seq![c.b, c.g, c.r],
    }
}

/// The bytes sent for a frame: for each light, its three components in
/// `order`, each gamma-corrected.
pub open spec fn encoded_frame(frame: Seq<Color>, order: ByteOrder) -> Seq<u8> {
    Seq::new(3 * frame.len(), |i: int| gamma(ordered_components(frame[i / 3], order)[i % 3]))
}

/// The three component bytes of a colour in the given order.
pub fn to_bytes(c: Color, order: ByteOrder) -> (bytes: [u8; 3])
    ensures
        bytes@ == ordered_components(c, order),
{
    match order {
        ByteOrder::Rgb => [c.r, c.g, c.b],
        ByteOrder::Grb => [c.g, c.r, c.b],
        ByteOrder::Bgr => [c.b, c.g, c.r],
    }
}

proof fn lemma_index_split(i: int, k: int)
    requires
        0 <= k < 3,
    ensures
        (3 * i + k) / 3 == i,
        (3 * i + k) % 3 == k,
{
}

/// Encodes a frame for a light controller: three gamma-corrected bytes per
/// light, in the given byte order.
pub fn encode_frame(frame: &Frame, order: ByteOrder) -> (bytes: Vec<u8>)
    requires
        3 * frame@.len() <= usize::MAX,
    ensures
        bytes@ == encoded_frame(frame@, order),
{
    let mut bytes: Vec<u8> = Vec::new();
    let n = frame.pixels.len();
    let mut i: usize = 0;
    while i < n
        invariant
            n == frame@.len(),
            3 * n <= usize::MAX,
            i <= n,
            bytes@.len() == 3 * i,
            forall|j: int|
                0 <= j < 3 * i ==> #[trigger] bytes@[j] == gamma(
                    ordered_components(frame@[j / 3], order)[j % 3],
                ),
        decreases n - i,
    {
        let c = to_bytes(frame.pixels[i], order);
        let ghost before = bytes@;
        bytes.push(gamma_correction(c[0]));
        bytes.push(gamma_correction(c[1]));
        bytes.push(gamma_correction(c[2]));
        proof {
            lemma_index_split(i as int, 0);
            lemma_index_split(i as int, 1);
            lemma_index_split(i as int, 2);
            assert forall|j: int| 0 <= j < 3 * (i + 1) implies #[trigger] bytes@[j] == gamma(
                ordered_components(frame@[j / 3], order)[j % 3],
            ) by {
                if j >= 3 * i {
                    lemma_index_split(i as int, j - 3 * i);
                } else {
                    assert(bytes@[j] == before[j]);
                }
            }
        }
        i = i + 1;
    }
    assert(bytes@ =~= encoded_frame(frame@, order));
    bytes
}

/// Encoding is local to each light: light `i` is sent as bytes `3i`,
/// `3i + 1` and `3i + 2`, which are its own components, gamma-corrected, in
/// the order the controller expects (red-green-blue, green-red-blue or
/// blue-green-red); the encoding has three bytes per light.
pub proof fn lemma_encoding_is_per_light(frame: Seq<Color>, order: ByteOrder, i: int)
    requires
        0 <= i < frame.len(),
    ensures
        encoded_frame(frame, order).len() == 3 * frame.len(),
        order == ByteOrder::Rgb ==> {
            &&& encoded_frame(frame, order)[3 * i] == gamma(frame[i].r)
            &&& encoded_frame(frame, order)[3 * i + 1] == gamma(frame[i].g)
            &&& encoded_frame(frame, order)[3 * i + 2] == gamma(frame[i].b)
        },
        order == ByteOrder::Grb ==> {
            &&& encoded_frame(frame, order)[3 * i] == gamma(frame[i].g)
            &&& encoded_frame(frame, order)[3 * i + 1] == gamma(frame[i].r)
            &&& encoded_frame(frame, order)[3 * i + 2] == gamma(frame[i].b)
        },
        order == ByteOrder::Bgr ==> {
            &&& encoded_frame(frame, order)[3 * i] == gamma(frame[i].b)
            &&& encoded_frame(frame, order)[3 * i + 1] == gamma(frame[i].g)
            &&& encoded_frame(frame, order)[3 * i + 2] == gamma(frame[i].r)
        },
{
    lemma_index_split(i, 0);
    lemma_index_split(i, 1);
    lemma_index_split(i, 2);
}

/// Three indices past the first `n` lights' bytes belong to the light `n`
/// places further on, at the same component.
proof fn lemma_index_shift(j: int, n: int)
    requires
        0 <= n,
        3 * n <= j,
    ensures
        j / 3 == n + (j - 3 * n) / 3,
        j % 3 == (j - 3 * n) % 3,
{
    let q = (j - 3 * n) / 3;
    let r = (j - 3 * n) % 3;
    assert(j - 3 * n == 3 * q + r && 0 <= r < 3);
    lemma_index_split(n + q, r);
    assert(j == 3 * (n + q) + r);
}

/// Encoding two frames one after the other gives the encoding of the two
/// frames joined, so no light's bytes depend on where it stands.
pub proof fn lemma_encoding_concat(f: Seq<Color>, g: Seq<Color>, order: ByteOrder)
    ensures
        encoded_frame(f + g, order) == encoded_frame(f, order) + encoded_frame(g, order),
{
    let a = encoded_frame(f + g, order);
    let b = encoded_frame(f, order) + encoded_frame(g, order);
    assert forall|j: int| 0 <= j < a.len() implies a[j] == b[j] by {
        if j < 3 * f.len() {
            assert(j / 3 < f.len());
        } else {
            lemma_index_shift(j, f.len() as int);
        }
    }
    assert(a =~= b);
}

/// A single light is sent as its three gamma-corrected components in the
/// controller's order.
pub proof fn lemma_single_light_encoding(c: Color)
    ensures
        encoded_frame(seq![c], ByteOrder::Rgb) == seq![gamma(c.r), gamma(c.g), gamma(c.b)],
        encoded_frame(seq![c], ByteOrder::Grb) == seq![gamma(c.g), gamma(c.r), gamma(c.b)],
        encoded_frame(seq![c], ByteOrder::Bgr) == seq![gamma(c.b), gamma(c.g), gamma(c.r)],
{
    lemma_encoding_is_per_light(seq![c], ByteOrder::Rgb, 0);
    lemma_encoding_is_per_light(seq![c], ByteOrder::Grb, 0);
    lemma_encoding_is_per_light(seq![c], ByteOrder::Bgr, 0);
    assert(encoded_frame(seq![c], ByteOrder::Rgb) =~= seq![gamma(c.r), gamma(c.g), gamma(c.b)]);
    assert(encoded_frame(seq![c], ByteOrder::Grb) =~= seq![gamma(c.g), gamma(c.r), gamma(c.b)]);
    assert(encoded_frame(seq![c], ByteOrder::Bgr) =~= seq![gamma(c.b), gamma(c.g), gamma(c.r)]);
}

/// The length prefix the stream and serial protocols send before the
/// pixel bytes: the byte count as a 16-bit little-endian number (only the
/// low 16 bits of the count are kept).
pub open spec fn length_prefix(len: nat) -> Seq<u8> {
    seq![((len % 65536) % 256) as u8, ((len % 65536) / 256) as u8]
}

/// Frames the pixel bytes for the TCP, UDP and serial protocols: the
/// length prefix followed by the bytes themselves.
pub fn length_prefixed(pixels: &Vec<u8>) -> (packet: Vec<u8>)
    ensures
        packet@ == length_prefix(pixels@.len()) + pixels@,
{
    let len16: usize = pixels.len() % 65536;
    let mut packet: Vec<u8> = Vec::new();
    packet.push((len16 % 256) as u8);
    packet.push((len16 / 256) as u8);
    let mut i: usize = 0;
    while i < pixels.len()
        invariant
            i <= pixels@.len(),
            len16 == pixels@.len() % 65536,
            packet@ == length_prefix(pixels@.len()) + pixels@.take(i as int),
        decreases pixels@.len() - i,
    {
        packet.push(pixels[i]);
        assert(pixels@.take(i + 1) =~= pixels@.take(i as int).push(pixels@[i as int]));
        i = i + 1;
    }
    assert(pixels@.take(pixels@.len() as int) =~= pixels@);
    packet
}


/// The address a TCP light client connects to: the URL without its
/// `tcp://` prefix.
pub fn tcp_address(url: &str) -> (address: String)
    ensures
        address@ == without_prefix(url@, "tcp://"@),
{
    strip_prefix_or_self(url, "tcp://")
}

/// The address a UDP light client sends to: the URL without its
/// `udp://` prefix.
pub fn udp_address(url: &str) -> (address: String)
    ensures
        address@ == without_prefix(url@, "udp://"@),
{
    strip_prefix_or_self(url, "udp://")
}


/// How sending a packet over a connection ended.
#[derive(Debug)]
pub enum SendOutcome {
    /// Every byte was sent.
    Sent,
    /// The connection failed, with the error's message.
    Failed(String),
    /// The send did not finish in time.
    TimedOut,
}

/// What a stream or datagram client reports for a send, and whether it
/// keeps its connection: kept after a successful send; dropped after a
/// failure, reported as a lost connection with the error's message, or
/// with "Timeout" when the send took too long.
pub fn send_result(outcome: SendOutcome) -> (r: (Result<(), LightClientError>, bool))
    ensures
        match outcome {
            SendOutcome::Sent => r.0 is Ok && r.1,
            SendOutcome::Failed(m) => {
                &&& !r.1
                &&& r.0 matches Err(LightClientError::ConnectionLost { reason }) && reason@ == m@
            },
            SendOutcome::TimedOut => {
                &&& !r.1
                &&& r.0 matches Err(LightClientError::ConnectionLost { reason }) && reason@
                    == "Timeout"@
            },
        },
{
    match outcome {
        SendOutcome::Sent => (Ok(()), true),
        SendOutcome::Failed(m) => (Err(LightClientError::ConnectionLost { reason: m }), false),
        SendOutcome::TimedOut => (
            Err(LightClientError::ConnectionLost { reason: String::from_str("Timeout") }),
            false,
        ),
    }
}

} // verus!
