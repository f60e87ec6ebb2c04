//! The light-position configurator: choosing the camera and the lights,
//! and the integer logic of turning per-light detections into positions.

pub mod capture;
pub mod cv;
pub mod sequence;

use vstd::prelude::*;

use crate::light_client::config::{
    parse_url, url_parse, ByteOrder, LightsConfig, LightsEndpoint, RemoteUrl, TtyLightsConfig,
};
use crate::text::{has_prefix, parse_i32, starts_with};

verus! {

/// An error of the configurator, with its message.
#[derive(Debug)]
pub struct ConfiguratorError {
    pub message: String,
}

impl ConfiguratorError {
    /// "Configurator error: " followed by the message.
    pub fn to_text(&self) -> (s: String)
        ensures
            s@ == "Configurator error: "@ + self.message@,
    {
        let s = String::from_str("Configurator error: ");
        s.concat(self.message.as_str())
    }
}

/// The camera to capture with.
#[derive(Debug)]
pub enum CameraSource {
    /// The local camera with this index.
    Local(i32),
    /// A video file.
    File(String),
    /// The default camera.
    Default,
}

/// What `str::parse::<i32>` gives for a text.
pub open spec fn parse_i32_spec(s: Seq<char>) -> Option<i32> {
    match crate::text::parsed_signed(s) {
        Some(v) => if i32::MIN <= v <= i32::MAX {
            Some(v as i32)
        } else {
            None
        },
        None => None,
    }
}

/// The camera the `--camera` option selects: a number is a local camera
/// index, any other text a video file, and no option the default camera.
pub fn camera_source(camera: Option<String>) -> (src: CameraSource)
    ensures
        match camera {
            Some(c) => match parse_i32_spec(c@) {
                Some(i) => src matches CameraSource::Local(j) && j == i,
                None => src matches CameraSource::File(p) && p@ == c@,
            },
            None => src is Default,
        },
{
    match camera {
        Some(c) => match parse_i32(c.as_str()) {
            Some(i) => CameraSource::Local(i),
            None => CameraSource::File(c),
        },
        None => CameraSource::Default,
    }
}

/// Whether an endpoint names a network light controller: it begins with
/// "http://", "tcp://" or "udp://".
pub open spec fn is_remote_endpoint_spec(endpoint: Seq<char>) -> bool {
    has_prefix(endpoint, "http://"@) || has_prefix(endpoint, "tcp://"@) || has_prefix(
        endpoint,
        "udp://"@,
    )
}

pub fn is_remote_endpoint(endpoint: &str) -> (b: bool)
    ensures
        b == is_remote_endpoint_spec(endpoint@),
{
    starts_with(endpoint, "http://") || starts_with(endpoint, "tcp://") || starts_with(
        endpoint,
        "udp://",
    )
}

/// The light controllers for a network endpoint, given what parsing it as
/// a URL gave: none when it did not parse, else one controller at that URL
/// in RGB byte order.
pub fn remote_lights_config(url: Option<RemoteUrl>) -> (configs: Vec<LightsConfig>)
    ensures
        match url {
            None => configs@.len() == 0,
            Some(u) => {
                &&& configs@.len() == 1
                &&& configs@[0].byte_order == ByteOrder::Rgb
                &&& configs@[0].endpoint matches LightsEndpoint::Remote(v)
                    && v.serialization@ == u.serialization@ && v.scheme@ == u.scheme@
            },
        },
{
    let mut configs: Vec<LightsConfig> = Vec::new();
    match url {
        Some(u) => {
            configs.push(LightsConfig { endpoint: LightsEndpoint::Remote(u), byte_order: ByteOrder::Rgb });
        },
        None => {},
    }
    configs
}

/// The light controllers the `--lights-endpoint` option selects, in RGB
/// byte order: none without the option; a network controller for an
/// endpoint that begins with a network scheme and parses as a URL (none
/// when it does not parse); the detected serial-port controller for any
/// other endpoint.
pub fn lights_config_from_endpoint(endpoint: Option<String>) -> (configs: Vec<LightsConfig>)
    ensures
        match endpoint {
            None => configs@.len() == 0,
            Some(e) => if is_remote_endpoint_spec(e@) {
                match url_parse(e@) {
                    None => configs@.len() == 0,
                    Some((ser, scheme)) => {
                        &&& configs@.len() == 1
                        &&& configs@[0].byte_order == ByteOrder::Rgb
                        &&& configs@[0].endpoint matches LightsEndpoint::Remote(u)
                            && u.serialization@ == ser && u.scheme@ == scheme
                    },
                }
            } else {
                &&& configs@.len() == 1
                &&& configs@[0].byte_order == ByteOrder::Rgb
                &&& configs@[0].endpoint matches LightsEndpoint::Tty(TtyLightsConfig::Detect)
            },
        },
{
    let mut configs: Vec<LightsConfig> = Vec::new();
    match endpoint {
        None => {},
        Some(e) => {
            if is_remote_endpoint(e.as_str()) {
                return remote_lights_config(parse_url(e.as_str()));
            } else {
                configs.push(
                    LightsConfig {
                        endpoint: LightsEndpoint::Tty(TtyLightsConfig::Detect),
                        byte_order: ByteOrder::Rgb,
                    },
                );
            }
        },
    }
    configs
}

} // verus!
