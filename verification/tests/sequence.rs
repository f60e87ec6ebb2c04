use rustmas::color::Color;
use rustmas::configurator::sequence::{
    capture_frame, CaptureFrame, CaptureStep, PerspectiveCapture, SETTLE_MS,
};
use rustmas::light_client::tty::{tty_next_action, TtyAction, TtyEvent};
use rustmas::light_client::LightClientError;

/// Runs a capture, answering each single-light frame with `lit[i]`.
fn run(n: usize, lit: &[bool]) -> Vec<CaptureStep> {
    let mut c = PerspectiveCapture::new(n);
    let mut steps = vec![];
    let mut shown = true;
    loop {
        let s = c.step(shown);
        steps.push(s);
        shown = match s {
            CaptureStep::ShowOnce(CaptureFrame::SingleOn(i)) => lit[i],
            _ => true,
        };
        if s == CaptureStep::Finished {
            return steps;
        }
        assert!(steps.len() < 1000);
    }
}

#[test]
fn capture_locates_each_light_then_takes_reference() {
    let steps = run(2, &[true, true]);
    assert_eq!(
        steps,
        vec![
            CaptureStep::ShowUntilShown(CaptureFrame::AllOff),
            CaptureStep::Sleep(SETTLE_MS),
            CaptureStep::CaptureBase,
            CaptureStep::ShowOnce(CaptureFrame::SingleOn(0)),
            CaptureStep::Sleep(SETTLE_MS),
            CaptureStep::CaptureLight(0),
            CaptureStep::ShowUntilShown(CaptureFrame::AllOff),
            CaptureStep::Sleep(SETTLE_MS),
            CaptureStep::CaptureBase,
            CaptureStep::ShowOnce(CaptureFrame::SingleOn(1)),
            CaptureStep::Sleep(SETTLE_MS),
            CaptureStep::CaptureLight(1),
            CaptureStep::ShowUntilShown(CaptureFrame::AllOn),
            CaptureStep::Sleep(30),
            CaptureStep::CaptureReference,
            CaptureStep::Finished,
        ]
    );
}

#[test]
fn capture_skips_light_that_cannot_be_lit() {
    let steps = run(3, &[true, false, true]);
    let located: Vec<usize> = steps.iter().filter_map(|s| if let CaptureStep::CaptureLight(i) = s { Some(*i) } else { None }).collect();
    assert_eq!(located, vec![0, 2]);
    assert!(steps.contains(&CaptureStep::SkipLight(1)));
    assert_eq!(steps.len(), 6 + 5 + 6 + 4);
}

#[test]
fn capture_of_no_lights_only_takes_reference() {
    assert_eq!(
        run(0, &[]),
        vec![CaptureStep::ShowUntilShown(CaptureFrame::AllOn), CaptureStep::Sleep(30), CaptureStep::CaptureReference, CaptureStep::Finished]
    );
}

#[test]
fn capture_frames() {
    let black = Color { r: 0, g: 0, b: 0 };
    let white = Color { r: 255, g: 255, b: 255 };
    let gray = Color { r: 50, g: 50, b: 50 };
    assert_eq!(capture_frame(CaptureFrame::AllOff, 3).pixels, vec![black; 3]);
    assert_eq!(capture_frame(CaptureFrame::AllOn, 2).pixels, vec![gray; 2]);
    assert_eq!(capture_frame(CaptureFrame::SingleOn(1), 3).pixels, vec![black, white, black]);
    assert_eq!(capture_frame(CaptureFrame::SingleOn(5), 2).pixels, vec![black; 2]);
}

#[test]
fn tty_send_writes_prefix_then_pixels() {
    assert!(matches!(tty_next_action(TtyEvent::Start), TtyAction::WritePrefix));
    assert!(matches!(tty_next_action(TtyEvent::PrefixWritten(true)), TtyAction::WritePixels));
    assert!(matches!(tty_next_action(TtyEvent::PixelsWritten(true)), TtyAction::Finish(Ok(()))));
    assert!(matches!(
        tty_next_action(TtyEvent::PixelsWritten(false)),
        TtyAction::Finish(Err(LightClientError::ProcessExited))
    ));
}

#[test]
fn tty_send_reopens_port_after_failed_prefix() {
    assert!(matches!(tty_next_action(TtyEvent::PrefixWritten(false)), TtyAction::FindPort));
    match tty_next_action(TtyEvent::PortFound(Some("/dev/ttyACM0".to_string()))) {
        TtyAction::OpenPort(name) => assert_eq!(name, "/dev/ttyACM0"),
        other => panic!("unexpected {other:?}"),
    }
    assert!(matches!(
        tty_next_action(TtyEvent::PortFound(None)),
        TtyAction::Finish(Err(LightClientError::ProcessExited))
    ));
    assert!(matches!(tty_next_action(TtyEvent::PortOpened(true)), TtyAction::Finish(Ok(()))));
    assert!(matches!(
        tty_next_action(TtyEvent::PortOpened(false)),
        TtyAction::Finish(Err(LightClientError::ProcessExited))
    ));
}
