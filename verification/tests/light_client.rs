use rustmas::color::{Color, Frame};
use rustmas::light_client::backoff::{BackoffConfig, BackoffState, ConnectionStatus};
use rustmas::light_client::combined::{client_kind, combined_result, ClientKind};
use rustmas::light_client::config::{
    deserialize_tty_config, serialize_tty_config, ByteOrder, LightsConfig, LightsEndpoint,
    RemoteUrl, TtyLightsConfig,
};
use rustmas::light_client::protocols::{
    encode_frame, gamma_correction, length_prefixed, tcp_address, to_bytes, udp_address,
};
use rustmas::light_client::tty::{
    component_gamma_correction, find_lights_port, tty_frame_bytes, SerialPortEntry,
};
use rustmas::light_client::LightClientError;

fn float_gamma(c: u8) -> u8 {
    (((c as f64) / 255.0).powi(2) * 255.0) as u8
}

#[test]
fn gamma_matches_floating_point_curve_for_every_component() {
    for c in 0..=255u8 {
        assert_eq!(gamma_correction(c), float_gamma(c), "component {c}");
        assert_eq!(component_gamma_correction(c), float_gamma(c), "component {c}");
    }
}

#[test]
fn gamma_exact_values() {
    assert_eq!(gamma_correction(0), 0);
    assert_eq!(gamma_correction(1), 0);
    assert_eq!(gamma_correction(16), 1);
    assert_eq!(gamma_correction(128), 64);
    assert_eq!(gamma_correction(255), 255);
}

#[test]
fn gamma_never_brightens_and_keeps_order() {
    let mut previous = 0;
    for c in 0..=255u8 {
        let g = gamma_correction(c);
        assert!(g <= c);
        assert!(g >= previous);
        previous = g;
    }
}

fn two_lights() -> Frame {
    Frame { pixels: vec![Color::rgb(255, 128, 0), Color::rgb(16, 0, 255)] }
}

#[test]
fn to_bytes_orders_components() {
    let c = Color::rgb(1, 2, 3);
    assert_eq!(to_bytes(c, ByteOrder::Rgb), [1, 2, 3]);
    assert_eq!(to_bytes(c, ByteOrder::Grb), [2, 1, 3]);
    assert_eq!(to_bytes(c, ByteOrder::Bgr), [3, 2, 1]);
}

#[test]
fn encode_frame_in_each_byte_order() {
    let f = two_lights();
    assert_eq!(encode_frame(&f, ByteOrder::Rgb), vec![255, 64, 0, 1, 0, 255]);
    assert_eq!(encode_frame(&f, ByteOrder::Grb), vec![64, 255, 0, 0, 1, 255]);
    assert_eq!(encode_frame(&f, ByteOrder::Bgr), vec![0, 64, 255, 255, 0, 1]);
    assert_eq!(encode_frame(&Frame { pixels: vec![] }, ByteOrder::Rgb), Vec::<u8>::new());
}

#[test]
fn tty_bytes_are_green_red_blue_encoding() {
    let f = two_lights();
    assert_eq!(tty_frame_bytes(&f), encode_frame(&f, ByteOrder::Grb));
}

#[test]
fn default_byte_order_is_rgb() {
    assert_eq!(ByteOrder::default(), ByteOrder::Rgb);
}

#[test]
fn length_prefix_is_little_endian_16_bit() {
    assert_eq!(length_prefixed(&vec![7, 8, 9]), vec![3, 0, 7, 8, 9]);
    let long = vec![0u8; 300];
    let packet = length_prefixed(&long);
    assert_eq!(&packet[..2], &[44, 1]);
    assert_eq!(packet.len(), 302);
    let wrapping = vec![5u8; 65537];
    let packet = length_prefixed(&wrapping);
    assert_eq!(&packet[..2], &[1, 0]);
    assert_eq!(length_prefixed(&vec![]), vec![0, 0]);
}

#[test]
fn stream_addresses_lose_their_scheme() {
    assert_eq!(tcp_address("tcp://192.168.0.5:1234"), "192.168.0.5:1234");
    assert_eq!(tcp_address("192.168.0.5:1234"), "192.168.0.5:1234");
    assert_eq!(udp_address("udp://lights:9"), "lights:9");
    assert_eq!(udp_address("tcp://lights:9"), "tcp://lights:9");
}

#[test]
fn lights_port_is_first_krzmaz_usb_port() {
    let ports = vec![
        SerialPortEntry { port_name: "/dev/ttyS0".into(), usb_manufacturer: None },
        SerialPortEntry { port_name: "/dev/ttyUSB0".into(), usb_manufacturer: Some("FTDI".into()) },
        SerialPortEntry { port_name: "/dev/ttyACM0".into(), usb_manufacturer: Some("krzmaz".into()) },
        SerialPortEntry { port_name: "/dev/ttyACM1".into(), usb_manufacturer: Some("krzmaz".into()) },
    ];
    assert_eq!(find_lights_port(&ports), Some("/dev/ttyACM0".to_string()));
    assert_eq!(find_lights_port(&ports[..2].to_vec()), None);
    assert_eq!(find_lights_port(&vec![]), None);
}

#[test]
fn error_messages() {
    assert_eq!(LightClientError::Unlikely.message(), "unlikely");
    assert_eq!(
        LightClientError::ConnectionLost { reason: "Timeout".into() }.message(),
        "connection to the light client lost: Timeout"
    );
    assert_eq!(LightClientError::ProcessExited.message(), "light client process exited");
    assert!(LightClientError::ProcessExited.is_process_exited());
    assert!(!LightClientError::Unlikely.is_process_exited());
    assert!(matches!(
        LightClientError::connection_lost("x"),
        LightClientError::ConnectionLost { reason } if reason == "x"
    ));
}

fn lost(reason: &str) -> Result<(), LightClientError> {
    Err(LightClientError::ConnectionLost { reason: reason.into() })
}

#[test]
fn combined_succeeds_when_any_client_succeeds() {
    let r = combined_result(&vec![lost("a"), Ok(()), Err(LightClientError::ProcessExited)]);
    assert!(r.is_ok());
}

#[test]
fn combined_reports_process_exit_only_when_all_exited() {
    let r = combined_result(&vec![
        Err(LightClientError::ProcessExited),
        Err(LightClientError::ProcessExited),
    ]);
    assert!(matches!(r, Err(LightClientError::ProcessExited)));
    let r = combined_result(&vec![]);
    assert!(matches!(r, Err(LightClientError::ProcessExited)));
}

#[test]
fn combined_joins_failure_messages() {
    let r = combined_result(&vec![lost("a"), Err(LightClientError::ProcessExited), Err(LightClientError::Unlikely)]);
    match r {
        Err(LightClientError::ConnectionLost { reason }) => assert_eq!(
            reason,
            "connection to the light client lost: a; light client process exited; unlikely"
        ),
        other => panic!("unexpected {other:?}"),
    }
    match combined_result(&vec![lost("only")]) {
        Err(LightClientError::ConnectionLost { reason }) => {
            assert_eq!(reason, "connection to the light client lost: only")
        }
        other => panic!("unexpected {other:?}"),
    }
}

fn remote(ser: &str, scheme: &str) -> LightsConfig {
    LightsConfig {
        endpoint: LightsEndpoint::Remote(RemoteUrl {
            serialization: ser.into(),
            scheme: scheme.into(),
        }),
        byte_order: ByteOrder::Rgb,
    }
}

#[test]
fn client_kind_by_scheme() {
    assert!(matches!(client_kind(&remote("http://a/", "http")), Ok(ClientKind::Http(u)) if u == "http://a/"));
    assert!(matches!(client_kind(&remote("tcp://a:1", "tcp")), Ok(ClientKind::Tcp(u)) if u == "tcp://a:1"));
    assert!(matches!(client_kind(&remote("udp://a:1", "udp")), Ok(ClientKind::Udp(u)) if u == "udp://a:1"));
    assert_eq!(
        client_kind(&remote("ws://a/", "ws")).unwrap_err(),
        "Unknown remote client protocol: ws"
    );
    let tty = LightsConfig {
        endpoint: LightsEndpoint::Tty(TtyLightsConfig::Detect),
        byte_order: ByteOrder::Grb,
    };
    assert!(matches!(client_kind(&tty), Ok(ClientKind::Tty)));
}

#[test]
fn tty_config_text_round_trip() {
    assert_eq!(serialize_tty_config(&TtyLightsConfig::Detect), "detect");
    assert_eq!(serialize_tty_config(&TtyLightsConfig::Path("/dev/ttyACM0".into())), "/dev/ttyACM0");
    assert!(matches!(deserialize_tty_config("detect"), TtyLightsConfig::Detect));
    assert!(matches!(deserialize_tty_config("/dev/ttyACM0"), TtyLightsConfig::Path(p) if p == "/dev/ttyACM0"));
    let path = TtyLightsConfig::Path("/dev/x".into());
    assert!(matches!(
        deserialize_tty_config(&serialize_tty_config(&path)),
        TtyLightsConfig::Path(p) if p == "/dev/x"
    ));
    // A path spelled "detect" reads back as detection.
    let odd = TtyLightsConfig::Path("detect".into());
    assert!(matches!(deserialize_tty_config(&serialize_tty_config(&odd)), TtyLightsConfig::Detect));
}

#[test]
fn backoff_configs() {
    let d = BackoffConfig::default();
    assert_eq!((d.start_delay_ms, d.max_delay_ms), (125, 1000));
    let s = BackoffConfig::slow();
    assert_eq!((s.start_delay_ms, s.max_delay_ms), (1000, 8000));
}

#[test]
fn backoff_refuses_until_the_delay_has_passed() {
    let mut b = BackoffState::new(BackoffConfig::default(), 0);
    assert!(b.before_send(0).is_ok());
    let r = b.after_send(0, lost("down"));
    assert!(matches!(r, Err(LightClientError::ConnectionLost { ref reason }) if reason == "down"));
    assert_eq!(b.status, ConnectionStatus::IntermittentFailure);
    assert_eq!(b.next_check_ms, 125);
    assert_eq!(b.delay_ms, 250);
    match b.before_send(100) {
        Err(LightClientError::ConnectionLost { reason }) => assert_eq!(reason, "Waiting to reconnect"),
        other => panic!("unexpected {other:?}"),
    }
    assert!(b.before_send(125).is_ok());
}

#[test]
fn backoff_delay_doubles_up_to_max_then_prolonged() {
    let mut b = BackoffState::new(BackoffConfig::default(), 0);
    let mut now = 0;
    let mut delays = vec![];
    let mut statuses = vec![];
    for _ in 0..6 {
        let _ = b.after_send(now, lost("x"));
        delays.push(b.delay_ms);
        statuses.push(b.status);
        now = b.next_check_ms;
    }
    assert_eq!(delays, vec![250, 500, 1000, 1000, 1000, 1000]);
    assert_eq!(
        statuses,
        vec![
            ConnectionStatus::IntermittentFailure,
            ConnectionStatus::IntermittentFailure,
            ConnectionStatus::IntermittentFailure,
            ConnectionStatus::ProlongedFailure,
            ConnectionStatus::ProlongedFailure,
            ConnectionStatus::ProlongedFailure,
        ]
    );
    assert_eq!(now, 125 + 250 + 500 + 1000 + 1000 + 1000);
}

#[test]
fn backoff_success_resets() {
    let mut b = BackoffState::new(BackoffConfig::slow(), 10);
    let _ = b.after_send(10, lost("x"));
    let _ = b.after_send(1010, lost("x"));
    assert!(b.after_send(5000, Ok(())).is_ok());
    assert_eq!(b.status, ConnectionStatus::Healthy);
    assert_eq!(b.delay_ms, 1000);
    assert_eq!(b.next_check_ms, 5000);
    assert!(b.before_send(0).is_ok());
}

#[test]
fn backoff_passes_other_errors_without_change() {
    let mut b = BackoffState::new(BackoffConfig::default(), 0);
    let _ = b.after_send(0, lost("x"));
    let before = (b.status, b.delay_ms, b.next_check_ms);
    assert!(matches!(b.after_send(50, Err(LightClientError::ProcessExited)), Err(LightClientError::ProcessExited)));
    assert!(matches!(b.after_send(60, Err(LightClientError::Unlikely)), Err(LightClientError::Unlikely)));
    assert_eq!((b.status, b.delay_ms, b.next_check_ms), before);
}

#[test]
fn backoff_delay_stays_between_start_and_max() {
    let config = BackoffConfig { start_delay_ms: 40, max_delay_ms: 700 };
    let mut b = BackoffState::new(config, 0);
    let pattern = [false, false, true, false, false, false, false, false, true, false, false];
    let mut now = 0;
    for (k, ok) in pattern.iter().cycle().take(60).enumerate() {
        let outcome = if *ok { Ok(()) } else { lost("x") };
        let _ = b.after_send(now, outcome);
        assert!(40 <= b.delay_ms && b.delay_ms <= 700, "step {k}: {}", b.delay_ms);
        assert_eq!((b.start_delay_ms, b.max_delay_ms), (40, 700));
        now += 13;
    }
}

#[test]
fn backoff_other_failures_leave_state_unchanged() {
    let mut b = BackoffState::new(BackoffConfig::default(), 0);
    let _ = b.after_send(0, lost("down"));
    let before = b;
    assert!(matches!(b.after_send(50, Err(LightClientError::ProcessExited)), Err(LightClientError::ProcessExited)));
    assert!(matches!(b.after_send(60, Err(LightClientError::Unlikely)), Err(LightClientError::Unlikely)));
    assert_eq!(
        (b.status, b.delay_ms, b.next_check_ms),
        (before.status, before.delay_ms, before.next_check_ms)
    );
}

#[test]
fn backoff_accepts_negative_delays() {
    let mut b = BackoffState::new(BackoffConfig { start_delay_ms: -10, max_delay_ms: 100 }, 1000);
    let _ = b.after_send(1000, lost("down"));
    // The next check lies in the past, so the next attempt is allowed.
    assert_eq!(b.next_check_ms, 990);
    assert_eq!(b.delay_ms, -20);
    assert!(b.before_send(1000).is_ok());
    let _ = b.after_send(1000, lost("down"));
    assert_eq!(b.delay_ms, -40);
    let _ = b.after_send(1001, Ok(()));
    assert_eq!(b.delay_ms, -10);
}
