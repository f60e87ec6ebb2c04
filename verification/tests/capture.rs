use rustmas::configurator::capture::{
    capture_dir, coordinates_path, image_dir, image_path, reference_path, RetryAction,
    RetryCounter, MAX_ATTEMPTS, RETRY_DELAY_MS,
};
use rustmas::configurator::remote_lights_config;
use rustmas::cv::uses_positive_image;
use rustmas::light_client::config::{ByteOrder, LightsEndpoint, RemoteUrl};
use rustmas::light_client::protocols::{send_result, SendOutcome};
use rustmas::light_client::LightClientError;
use rustmas::text::padded_decimal;

#[test]
fn sent_packet_keeps_connection() {
    let (r, keep) = send_result(SendOutcome::Sent);
    assert!(r.is_ok());
    assert!(keep);
}

#[test]
fn failed_send_drops_connection_with_message() {
    let (r, keep) = send_result(SendOutcome::Failed("broken pipe".to_string()));
    assert!(!keep);
    match r {
        Err(LightClientError::ConnectionLost { reason }) => assert_eq!(reason, "broken pipe"),
        other => panic!("unexpected {:?}", other),
    }
}

#[test]
fn timed_out_send_drops_connection() {
    let (r, keep) = send_result(SendOutcome::TimedOut);
    assert!(!keep);
    match r {
        Err(LightClientError::ConnectionLost { reason }) => assert_eq!(reason, "Timeout"),
        other => panic!("unexpected {:?}", other),
    }
}

#[test]
fn positive_image_only_for_lowest_bit_of_odd_index() {
    for index in 0usize..64 {
        for i in 0usize..(usize::BITS as usize) {
            let expected = (1usize >> i) & index != 0;
            assert_eq!(uses_positive_image(index, i), expected);
        }
    }
    assert!(uses_positive_image(5, 0));
    assert!(!uses_positive_image(4, 0));
    assert!(!uses_positive_image(5, 2));
}

#[test]
fn padded_decimal_matches_format() {
    for n in [0u64, 7, 42, 99, 100, 999, 1000, 123456, u64::MAX] {
        for w in (0usize..=25).chain([40, 64]) {
            assert_eq!(padded_decimal(n, w), format!("{:0w$}", n));
        }
    }
}

#[test]
fn capture_paths() {
    let dir = capture_dir("2023-12-01T10:00:00");
    assert_eq!(dir, "captures/2023-12-01T10:00:00");
    assert_eq!(image_dir(&dir), "captures/2023-12-01T10:00:00/img");
    assert_eq!(image_path("captures/x", 7), "captures/x/img/007.jpg");
    assert_eq!(image_path("captures/x", 123), "captures/x/img/123.jpg");
    assert_eq!(image_path("captures/x", 1234), "captures/x/img/1234.jpg");
    assert_eq!(reference_path("captures/x"), "captures/x/reference.jpg");
    assert_eq!(coordinates_path("captures/x", "front"), "captures/x/front.csv");
}

#[test]
fn display_failures_wait_longer_each_time() {
    let mut c = RetryCounter::new();
    assert!(!c.before_display_attempt());
    assert_eq!(c.after_display_failure(), 30);
    assert_eq!(c.after_display_failure(), 60);
    assert_eq!(c.after_display_failure(), 90);
    assert_eq!(c.attempts, 3);
}

#[test]
fn display_pauses_after_too_many_failures() {
    let mut c = RetryCounter::new();
    for k in 1..=MAX_ATTEMPTS {
        assert!(!c.before_display_attempt());
        assert_eq!(c.after_display_failure(), RETRY_DELAY_MS * k as u64);
    }
    assert!(c.before_display_attempt());
    assert_eq!(c.attempts, 0);
}

#[test]
fn capture_failures_cycle_through_pause() {
    let mut c = RetryCounter::new();
    for k in 1..=MAX_ATTEMPTS {
        assert_eq!(c.after_capture_failure(), RetryAction::Sleep(30 * k as u64));
    }
    assert_eq!(c.after_capture_failure(), RetryAction::Pause);
    assert_eq!(c.attempts, 0);
    assert_eq!(c.after_capture_failure(), RetryAction::Sleep(30));
    // After k failures the count is k modulo eleven.
    let mut d = RetryCounter::new();
    for k in 1u32..=40 {
        d.after_capture_failure();
        assert_eq!(d.attempts, k % 11);
    }
}

#[test]
fn remote_config_from_parsed_url() {
    assert!(remote_lights_config(None).is_empty());
    let configs = remote_lights_config(Some(RemoteUrl {
        serialization: "tcp://10.0.0.2:1234".to_string(),
        scheme: "tcp".to_string(),
    }));
    assert_eq!(configs.len(), 1);
    assert_eq!(configs[0].byte_order, ByteOrder::Rgb);
    match &configs[0].endpoint {
        LightsEndpoint::Remote(u) => {
            assert_eq!(u.serialization, "tcp://10.0.0.2:1234");
            assert_eq!(u.scheme, "tcp");
        }
        other => panic!("unexpected {:?}", other),
    }
}
