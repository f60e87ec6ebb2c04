use rustmas::animator::animations::{animation_kind, AnimationKind, Blank, Check, Indexing, Rgb};
use rustmas::animator::controller::{sleep_duration_ms, FrameTiming, PollStep};
use rustmas::animator::factory::{is_plugin_file_name, plugin_file_name};
use rustmas::animator::jsonrpc::{check_response_read, next_message_id, JsonRpcEndpointError};
use rustmas::animator::jsonrpc_animation::animation_name_or_default;
use rustmas::color::{Color, Frame};
use rustmas::text::{parse_i32, parse_usize};

const RED: Color = Color { r: 255, g: 0, b: 0 };
const GREEN: Color = Color { r: 0, g: 255, b: 0 };
const BLUE: Color = Color { r: 0, g: 0, b: 255 };
const WHITE: Color = Color { r: 255, g: 255, b: 255 };
const BLACK: Color = Color { r: 0, g: 0, b: 0 };

#[test]
fn rgb_cycles_by_step() {
    let a = Rgb::new(4);
    assert_eq!(a.frame(0).pixels, vec![RED, GREEN, BLUE, RED]);
    assert_eq!(a.frame(1).pixels, vec![GREEN, BLUE, RED, GREEN]);
    assert_eq!(a.frame(5).pixels, vec![BLUE, RED, GREEN, BLUE]);
    assert_eq!(a.frame(usize::MAX).pixels, a.frame(0).pixels);
    assert!(Rgb::new(0).frame(3).pixels.is_empty());
}

#[test]
fn check_lights_one_light() {
    let c = Check::new(3);
    assert_eq!(c.frame(1).pixels, vec![BLACK, WHITE, BLACK]);
    assert_eq!(c.frame(7).pixels, vec![BLACK, BLACK, BLACK]);
    assert!(Check::new(0).frame(0).pixels.is_empty());
}

#[test]
fn blank_is_black() {
    let b = Blank::new(2);
    assert_eq!(b.frame().pixels, vec![BLACK, BLACK]);
}

#[test]
fn frame_helpers() {
    assert_eq!(Frame::new(2, Color::gray(50)).pixels, vec![Color::rgb(50, 50, 50); 2]);
    assert_eq!(Frame::new_black(1).with_pixel(0, Color::white()).pixels, vec![WHITE]);
    assert_eq!(Frame::new_black(1).with_pixel(1, Color::white()).pixels, vec![BLACK]);
    assert_eq!(Frame::new_black(3).len(), 3);
}

#[test]
fn indexing_shows_one_bit_of_the_index() {
    let mut a = Indexing::new(6);
    assert_eq!(a.frame().pixels, vec![BLACK, WHITE, BLACK, WHITE, BLACK, WHITE]);
    assert!(a.set_bit_parameter(Some("1")).is_ok());
    assert_eq!(a.bit, 1);
    assert_eq!(a.frame().pixels, vec![BLACK, BLACK, WHITE, WHITE, BLACK, BLACK]);
    assert!(a.set_bit_parameter(Some("2")).is_ok());
    assert_eq!(a.frame().pixels, vec![BLACK, BLACK, BLACK, BLACK, WHITE, WHITE]);
}

#[test]
fn indexing_refuses_bad_parameters() {
    let mut a = Indexing::new(2);
    assert_eq!(a.set_bit_parameter(Some("x")).unwrap_err(), "Incorrect parameters");
    assert_eq!(a.set_bit_parameter(None).unwrap_err(), "Incorrect parameters");
    assert_eq!(a.set_bit_parameter(Some("-1")).unwrap_err(), "Incorrect parameters");
    assert_eq!(a.bit, 0);
}

#[test]
fn animation_names() {
    assert_eq!(animation_kind("blank"), Some(AnimationKind::Blank));
    assert_eq!(animation_kind("rainbow_waterfall"), Some(AnimationKind::RainbowWaterfall));
    assert_eq!(animation_kind("random_sweep"), Some(AnimationKind::RandomSweep));
    assert_eq!(animation_kind("rgb"), Some(AnimationKind::Rgb));
    assert_eq!(animation_kind("check"), Some(AnimationKind::Check));
    assert_eq!(animation_kind("Rgb"), None);
    assert_eq!(animation_kind(""), None);
}

#[test]
fn parsing_matches_the_standard_library() {
    let samples = [
        "", "+", "-", "0", "7", "+7", "-7", "007", "12a", " 1", "1 ", "18446744073709551615",
        "18446744073709551616", "2147483647", "2147483648", "-2147483648", "-2147483649",
        "+-1", "٣", "99999999999999999999999",
    ];
    for s in samples {
        assert_eq!(parse_usize(s), s.parse::<usize>().ok(), "usize {s:?}");
        assert_eq!(parse_i32(s), s.parse::<i32>().ok(), "i32 {s:?}");
    }
}

#[test]
fn frames_wait_until_due() {
    let mut t = FrameTiming::start(1000);
    assert_eq!(t.poll(1000, Some(40)), PollStep::Advance { delta_ms: 0, retry_ms: 1000 });
    assert_eq!(t.next_frame_ms, 1040);
    assert_eq!(t.poll(1010, Some(40)), PollStep::TryLater(1040));
    assert_eq!(t.poll(1050, Some(40)), PollStep::Advance { delta_ms: 50, retry_ms: 1040 });
    assert_eq!(t.last_frame_ms, 1050);
    assert_eq!(t.next_frame_ms, 1090);
}

#[test]
fn still_animations_wait_at_most_a_second() {
    let mut t = FrameTiming::start(0);
    assert_eq!(t.poll(0, None), PollStep::Advance { delta_ms: 0, retry_ms: 0 });
    assert_eq!(t.next_frame_ms, 86_400_000);
    assert_eq!(t.poll(5, None), PollStep::TryLater(1005));
    t.due_now(7);
    assert_eq!(t.poll(7, None), PollStep::Advance { delta_ms: 7, retry_ms: 7 });
}

#[test]
fn sleep_is_clamped() {
    assert_eq!(sleep_duration_ms(100, 90), 10);
    assert_eq!(sleep_duration_ms(100, 200), 0);
    assert_eq!(sleep_duration_ms(1000, 0), 33);
}

#[test]
fn jsonrpc_bookkeeping() {
    let mut id = 0usize;
    assert_eq!(next_message_id(&mut id), 1);
    assert_eq!(next_message_id(&mut id), 2);
    assert_eq!(id, 2);
    assert!(check_response_read(10).is_ok());
    assert!(matches!(check_response_read(0), Err(JsonRpcEndpointError::ProcessExited)));
    assert_eq!(JsonRpcEndpointError::ProcessExited.message(), "endpoint process exited");
    assert_eq!(
        JsonRpcEndpointError::InvalidResponse("bad json".into()).message(),
        "endpoint returned invalid response: bad json"
    );
    assert_eq!(animation_name_or_default(Some("Snow".into())), "Snow");
    assert_eq!(animation_name_or_default(None), "Animation Plugin");
}

#[test]
fn installed_plugins_are_discovered() {
    assert_eq!(plugin_file_name("rainbow"), "rainbow.crab");
    assert!(is_plugin_file_name(&plugin_file_name("rainbow")));
    assert!(is_plugin_file_name(".crab"));
    assert!(!is_plugin_file_name("rainbow.crab.bak"));
    assert!(!is_plugin_file_name("crab"));
}
