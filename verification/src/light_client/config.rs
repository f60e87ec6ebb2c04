//! Configuration of the light endpoints.

use vstd::prelude::*;

use crate::text::str_equal;

verus! {

/// The order in which a light controller expects the colour components.
#[derive(Clone, Copy, Debug, PartialEq, Eq, Structural)]
pub enum ByteOrder {
    Rgb,
    Grb,
    Bgr,
}

impl Default for ByteOrder {
    fn default() -> (o: ByteOrder)
        ensures
            o == ByteOrder::Rgb,
    {
        ByteOrder::Rgb
    }
}


/// Where a serial-port light controller is found: detected by its USB
/// manufacturer, or at a given device path.
#[derive(Clone, Debug)]
pub enum TtyLightsConfig {
    Detect,
    Path(String),
}

/// A TTY configuration as a value: `None` for detection, `Some(path)` for a
/// device path.
pub open spec fn tty_config_value(config: TtyLightsConfig) -> Option<Seq<char>> {
    match config {
        TtyLightsConfig::Detect => None,
        TtyLightsConfig::Path(p) => Some(p@),
    }
}

/// The text a TTY configuration value is written as: `"detect"`, or the
/// path.
pub open spec fn tty_config_text(value: Option<Seq<char>>) -> Seq<char> {
    match value {
        None => "detect"@,
        Some(p) => p,
    }
}

/// The TTY configuration value a text is read as: `"detect"` means
/// detection, any other text is a device path.
pub open spec fn tty_config_read(text: Seq<char>) -> Option<Seq<char>> {
    if text == "detect"@ {
        None
    } else {
        Some(text)
    }
}

/// Writes a TTY configuration as text.
pub fn serialize_tty_config(config: &TtyLightsConfig) -> (s: String)
    ensures
        s@ == tty_config_text(tty_config_value(*config)),
{
    match config {
        TtyLightsConfig::Detect => String::from_str("detect"),
        TtyLightsConfig::Path(p) => p.clone(),
    }
}

/// Reads a TTY configuration from text.
pub fn deserialize_tty_config(s: &str) -> (config: TtyLightsConfig)
    ensures
        tty_config_value(config) == tty_config_read(s@),
{
    if str_equal(s, "detect") {
        TtyLightsConfig::Detect
    } else {
        TtyLightsConfig::Path(String::from_str(s))
    }
}

/// Reading back what was written gives the same configuration, except for
/// a device path spelled `"detect"`, which reads back as detection.
pub proof fn lemma_tty_config_read_after_write(value: Option<Seq<char>>)
    requires
        value != Some("detect"@),
    ensures
        tty_config_read(tty_config_text(value)) == value,
{
}

/// Writing what was read gives back the text exactly.
pub proof fn lemma_tty_config_write_after_read(text: Seq<char>)
    ensures
        tty_config_text(tty_config_read(text)) == text,
{
}

/// A parsed URL: its serialization and its scheme.
#[derive(Clone, Debug)]
pub struct RemoteUrl {
    pub serialization: String,
    pub scheme: String,
}

/// What `url::Url::parse` makes of a text: `None` when it is not a valid
/// URL, else the URL's serialization (`Url::as_str`) and its scheme
/// (`Url::scheme`).
pub uninterp spec fn url_parse(input: Seq<char>) -> Option<(Seq<char>, Seq<char>)>;

/// Calls `url::Url::parse` on `input`; on success returns the URL's
/// serialization and its scheme. Claimed: the outcome is the function
/// `url_parse` of the input's characters; nothing more is stated about
/// what the URL standard accepts or how it normalises the text.
#[verifier::external_body]
pub(crate) fn parse_url(input: &str) -> (r: Option<RemoteUrl>)
    ensures
        match r {
            Some(u) => url_parse(input@) == Some((u.serialization@, u.scheme@)),
            None => url_parse(input@) is None,
        },
{
    match url::Url::parse(input) {
        Ok(u) => Some(
            RemoteUrl { serialization: u.as_str().to_string(), scheme: u.scheme().to_string() },
        ),
        Err(_) => None,
    }
}

/// The endpoint of a light controller: over the network, or on a serial
/// port.
#[derive(Clone, Debug)]
pub enum LightsEndpoint {
    Remote(RemoteUrl),
    Tty(TtyLightsConfig),
}

/// One configured light controller.
#[derive(Clone, Debug)]
pub struct LightsConfig {
    pub endpoint: LightsEndpoint,
    pub byte_order: ByteOrder,
}

} // verus!
