use rustmas::configurator::capture::{
    centered_offset, interpolation_gaps, leading_unconfident_count, normalization_bounds,
    unconfident_runs, Bounds,
};
use rustmas::configurator::cv::{CameraError, Display};
use rustmas::configurator::{
    camera_source, is_remote_endpoint, lights_config_from_endpoint, CameraSource,
    ConfiguratorError,
};
use rustmas::events::fft_generator::fft_band_bins;
use rustmas::events::midi_generator::{note_on_event, NoteMessage};
use rustmas::events::device_or_default;
use rustmas::light_client::config::{ByteOrder, LightsEndpoint, TtyLightsConfig};

#[test]
fn unconfident_runs_are_maximal() {
    let c = vec![false, true, false, false, true, true, false];
    assert_eq!(unconfident_runs(&c), vec![(0, 0), (2, 3), (6, 6)]);
    assert_eq!(unconfident_runs(&vec![true, true]), vec![]);
    assert_eq!(unconfident_runs(&vec![false, false]), vec![(0, 1)]);
    assert_eq!(unconfident_runs(&vec![]), vec![]);
}

#[test]
fn interpolation_needs_lights_on_both_sides() {
    let c = vec![false, true, false, false, true, true, false];
    assert_eq!(interpolation_gaps(&c), vec![(2, 3)]);
    assert_eq!(interpolation_gaps(&vec![true, false, true, false, true]), vec![(1, 1), (3, 3)]);
    assert_eq!(interpolation_gaps(&vec![false, false]), vec![]);
}

#[test]
fn leading_unconfident() {
    assert_eq!(leading_unconfident_count(&vec![false, false, true, false]), 2);
    assert_eq!(leading_unconfident_count(&vec![true, false]), 0);
    assert_eq!(leading_unconfident_count(&vec![false, false]), 2);
    assert_eq!(leading_unconfident_count(&vec![]), 0);
}

#[test]
fn bounds_of_confident_points() {
    let points = vec![(10, 40), (500, 500), (30, 20), (20, 60)];
    let confident = vec![true, false, true, true];
    assert_eq!(
        normalization_bounds(&points, &confident),
        Some(Bounds { x_min: 10, x_span: 20, y_min: 20, y_span: 40 })
    );
    assert_eq!(normalization_bounds(&points, &vec![false, true, false, false]), None);
    assert_eq!(normalization_bounds(&vec![], &vec![]), None);
}

#[test]
fn offsets_from_centre() {
    assert_eq!(centered_offset(10, 10, 20), -10);
    assert_eq!(centered_offset(30, 10, 20), 10);
    assert_eq!(centered_offset(30, 10, 21), 10);
    // Values above isize::MAX wrap around as `as isize` does.
    let big = usize::MAX - 2; // -3 as isize
    assert_eq!(centered_offset(big, 0, 0), -3);
    assert_eq!(centered_offset(0, 0, big), 1);
    assert_eq!(centered_offset(0, 0, usize::MAX - 4), (0isize) - ((usize::MAX - 4) as isize) / 2);
    assert_eq!(centered_offset(20, 10, 21), 0);
}

#[test]
fn endpoints_choose_lights() {
    assert!(lights_config_from_endpoint(None).is_empty());
    let tcp = lights_config_from_endpoint(Some("tcp://127.0.0.1:1234".into()));
    assert_eq!(tcp.len(), 1);
    assert_eq!(tcp[0].byte_order, ByteOrder::Rgb);
    match &tcp[0].endpoint {
        LightsEndpoint::Remote(u) => {
            assert_eq!(u.scheme, "tcp");
            assert_eq!(u.serialization, "tcp://127.0.0.1:1234");
        }
        other => panic!("unexpected {other:?}"),
    }
    let upper = lights_config_from_endpoint(Some("HTTP://Example.com".into()));
    assert!(matches!(upper[0].endpoint, LightsEndpoint::Tty(TtyLightsConfig::Detect)));
    let http = lights_config_from_endpoint(Some("http://Example.com".into()));
    match &http[0].endpoint {
        LightsEndpoint::Remote(u) => {
            assert_eq!(u.scheme, "http");
            assert_eq!(u.serialization, "http://example.com/");
        }
        other => panic!("unexpected {other:?}"),
    }
    assert!(lights_config_from_endpoint(Some("http://[bad".into())).is_empty());
    let tty = lights_config_from_endpoint(Some("/dev/ttyACM0".into()));
    assert!(matches!(tty[0].endpoint, LightsEndpoint::Tty(TtyLightsConfig::Detect)));
    assert!(is_remote_endpoint("udp://x"));
    assert!(!is_remote_endpoint("ws://x"));
}

#[test]
fn camera_selection() {
    assert!(matches!(camera_source(Some("2".into())), CameraSource::Local(2)));
    assert!(matches!(camera_source(Some("-1".into())), CameraSource::Local(-1)));
    assert!(matches!(camera_source(Some("video.mp4".into())), CameraSource::File(p) if p == "video.mp4"));
    assert!(matches!(camera_source(None), CameraSource::Default));
}

#[test]
fn error_texts() {
    assert_eq!(ConfiguratorError { message: "Wrong output dir!".into() }.to_text(), "Configurator error: Wrong output dir!");
    assert_eq!(CameraError::CaptureError.to_text(), "CameraError");
    assert_eq!(CameraError::InitializeError.to_text(), "CameraError");
    assert_eq!(Display::named("Preview").window_name, "Preview");
}

#[test]
fn fft_bands_match_rounded_frequencies() {
    let bands = fft_band_bins();
    assert_eq!(bands.len(), 18);
    for (k, (low, high)) in bands.iter().enumerate() {
        let i = k + 2;
        let lo = ((i * 1000) as f32 / 48000.0 * 1024.0).round() as usize;
        let hi = (((i + 1) * 1000) as f32 / 48000.0 * 1024.0).round() as usize;
        assert_eq!((*low, *high), (lo, hi));
        assert!(low < high && *high <= 1024);
    }
    assert_eq!(bands[0], (43, 64));
}

#[test]
fn note_on_with_zero_velocity_is_release() {
    assert_eq!(note_on_event(1, 60, 0), NoteMessage::NoteOff { channel: 1, note: 60, velocity: 255 });
    assert_eq!(note_on_event(1, 60, 90), NoteMessage::NoteOn { channel: 1, note: 60, velocity: 90 });
}

#[test]
fn devices_default() {
    assert_eq!(device_or_default(Some("USB Audio".into())), "USB Audio");
    assert_eq!(device_or_default(None), "default");
}
