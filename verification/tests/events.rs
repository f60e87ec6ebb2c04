use std::collections::VecDeque;

use rustmas::events::{find_device, push_samples, select_audio_device, select_midi_port};

#[test]
fn device_found_by_exact_name() {
    let names = vec![
        None,
        Some("Built-in Microphone".to_string()),
        Some("USB Audio".to_string()),
        Some("USB Audio".to_string()),
    ];
    assert_eq!(find_device(&names, "USB Audio"), Some(2));
    assert_eq!(find_device(&names, "Built-in Microphone"), Some(1));
    assert_eq!(find_device(&names, "USB"), None);
    assert_eq!(find_device(&names, ""), None);
    assert_eq!(find_device(&Vec::new(), "default"), None);
}

#[test]
fn samples_enter_at_front_and_oldest_leave() {
    let mut window: VecDeque<i32> = vec![0; 5].into();
    push_samples(&mut window, &[1, 2, 3]);
    assert_eq!(window, VecDeque::from(vec![3, 2, 1, 0, 0]));
    push_samples(&mut window, &[4, 5, 6, 7, 8, 9]);
    assert_eq!(window, VecDeque::from(vec![9, 8, 7, 6, 5]));
    push_samples(&mut window, &[]);
    assert_eq!(window.len(), 5);
}

#[test]
fn chunking_does_not_change_the_window() {
    let data: Vec<u16> = (1..=40).collect();
    let mut whole: VecDeque<u16> = vec![0; 16].into();
    push_samples(&mut whole, &data);
    let mut chunked: VecDeque<u16> = vec![0; 16].into();
    for chunk in data.chunks(7) {
        push_samples(&mut chunked, chunk);
    }
    assert_eq!(whole, chunked);
}

#[test]
fn empty_window_stays_empty() {
    let mut window: VecDeque<u8> = VecDeque::new();
    push_samples(&mut window, &[1, 2, 3]);
    assert!(window.is_empty());
}

#[test]
fn device_selection_errors_name_the_device() {
    let names = vec![Some("Mic".to_string()), None, Some("Keys".to_string())];
    assert_eq!(select_audio_device(&names, "Mic"), Ok(0));
    assert_eq!(select_audio_device(&names, "Line"), Err("Device 'Line' not found".to_string()));
    assert_eq!(select_midi_port(&names, "Keys"), Ok(2));
    assert_eq!(select_midi_port(&names, "Pads"), Err("Selected MIDI port not found: Pads".to_string()));
}
