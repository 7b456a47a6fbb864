use evdev::KeyCode;
use watchmedo::input_keys::{
    linux_key_name, KeyState, KeyboardEventDecoder, RawInputEvent, EV_KEY, EV_MSC, EV_SYN,
    KEY_LEFTALT, KEY_LEFTCTRL, KEY_LEFTMETA, KEY_LEFTSHIFT, KEY_RIGHTALT, KEY_RIGHTCTRL,
    KEY_RIGHTMETA, KEY_RIGHTSHIFT, MSC_SCAN, SYN_REPORT,
};

#[test]
fn maps_linux_key_codes_to_expected_symbolic_names() {
    let baseline = [
        (20_u16, "KEY_T"),
        (18_u16, "KEY_E"),
        (31_u16, "KEY_S"),
        (29_u16, "KEY_LEFTCTRL"),
        (46_u16, "KEY_C"),
    ];

    for (code, expected) in baseline {
        assert_eq!(linux_key_name(code), expected, "unexpected mapping for code {code}");
    }
}

#[test]
fn decodes_test_then_ctrl_c_trace_against_baseline() {
    let trace = [
        RawInputEvent::new(EV_MSC, MSC_SCAN, 458775),
        RawInputEvent::new(EV_KEY, 20, 1),
        RawInputEvent::new(EV_SYN, SYN_REPORT, 0),
        RawInputEvent::new(EV_MSC, MSC_SCAN, 458775),
        RawInputEvent::new(EV_KEY, 20, 0),
        RawInputEvent::new(EV_SYN, SYN_REPORT, 0),
        RawInputEvent::new(EV_MSC, MSC_SCAN, 458760),
        RawInputEvent::new(EV_KEY, 18, 1),
        RawInputEvent::new(EV_SYN, SYN_REPORT, 0),
        RawInputEvent::new(EV_MSC, MSC_SCAN, 458760),
        RawInputEvent::new(EV_KEY, 18, 0),
        RawInputEvent::new(EV_SYN, SYN_REPORT, 0),
        RawInputEvent::new(EV_MSC, MSC_SCAN, 458774),
        RawInputEvent::new(EV_KEY, 31, 1),
        RawInputEvent::new(EV_SYN, SYN_REPORT, 0),
        RawInputEvent::new(EV_MSC, MSC_SCAN, 458774),
        RawInputEvent::new(EV_KEY, 31, 0),
        RawInputEvent::new(EV_SYN, SYN_REPORT, 0),
        RawInputEvent::new(EV_MSC, MSC_SCAN, 458775),
        RawInputEvent::new(EV_KEY, 20, 1),
        RawInputEvent::new(EV_SYN, SYN_REPORT, 0),
        RawInputEvent::new(EV_MSC, MSC_SCAN, 458775),
        RawInputEvent::new(EV_KEY, 20, 0),
        RawInputEvent::new(EV_SYN, SYN_REPORT, 0),
        RawInputEvent::new(EV_MSC, MSC_SCAN, 458976),
        RawInputEvent::new(EV_KEY, 29, 1),
        RawInputEvent::new(EV_SYN, SYN_REPORT, 0),
        RawInputEvent::new(EV_MSC, MSC_SCAN, 458758),
        RawInputEvent::new(EV_KEY, 46, 1),
        RawInputEvent::new(EV_SYN, SYN_REPORT, 0),
    ];

    let mut decoder = KeyboardEventDecoder::default();
    let decoded = decoder.decode_all(trace.to_vec());

    let pressed = decoded
        .iter()
        .filter(|event| event.state == KeyState::Down)
        .map(|event| event.key_name.as_str())
        .collect::<Vec<_>>();

    assert_eq!(pressed, vec!["KEY_T", "KEY_E", "KEY_S", "KEY_T", "KEY_LEFTCTRL", "KEY_C"]);

    assert_eq!(decoded[0].raw_scancode, Some(458775));
    assert_eq!(decoded[2].raw_scancode, Some(458760));
    assert_eq!(decoded[4].raw_scancode, Some(458774));
    assert_eq!(decoded[8].raw_scancode, Some(458976));
    assert_eq!(decoded[9].raw_scancode, Some(458758));

    assert!(decoded[8].modifiers.ctrl);
    assert!(decoded[9].modifiers.ctrl);
    assert!(!decoded[9].modifiers.shift);
    assert!(!decoded[9].modifiers.alt);
    assert!(!decoded[9].modifiers.meta);
}

#[test]
fn ctrl_release_clears_modifier_state() {
    let trace = [
        RawInputEvent::new(EV_MSC, MSC_SCAN, 458976),
        RawInputEvent::new(EV_KEY, 29, 1),
        RawInputEvent::new(EV_SYN, SYN_REPORT, 0),
        RawInputEvent::new(EV_MSC, MSC_SCAN, 458976),
        RawInputEvent::new(EV_KEY, 29, 0),
        RawInputEvent::new(EV_SYN, SYN_REPORT, 0),
    ];

    let mut decoder = KeyboardEventDecoder::default();
    let decoded = decoder.decode_all(trace.to_vec());

    assert!(decoded[0].modifiers.ctrl);
    assert!(!decoded[1].modifiers.ctrl);
}

#[test]
fn modifier_codes_agree_with_evdev() {
    assert_eq!(KEY_LEFTCTRL, KeyCode::KEY_LEFTCTRL.code());
    assert_eq!(KEY_RIGHTCTRL, KeyCode::KEY_RIGHTCTRL.code());
    assert_eq!(KEY_LEFTSHIFT, KeyCode::KEY_LEFTSHIFT.code());
    assert_eq!(KEY_RIGHTSHIFT, KeyCode::KEY_RIGHTSHIFT.code());
    assert_eq!(KEY_LEFTALT, KeyCode::KEY_LEFTALT.code());
    assert_eq!(KEY_RIGHTALT, KeyCode::KEY_RIGHTALT.code());
    assert_eq!(KEY_LEFTMETA, KeyCode::KEY_LEFTMETA.code());
    assert_eq!(KEY_RIGHTMETA, KeyCode::KEY_RIGHTMETA.code());
}

#[test]
fn unknown_key_values_and_scan_reset() {
    let mut decoder = KeyboardEventDecoder::default();
    // A scan code followed by a report marker is forgotten.
    assert!(decoder.decode_event(RawInputEvent::new(EV_MSC, MSC_SCAN, 7)).is_none());
    assert!(decoder.decode_event(RawInputEvent::new(EV_SYN, SYN_REPORT, 0)).is_none());
    let key = decoder.decode_event(RawInputEvent::new(EV_KEY, 30, 1)).unwrap();
    assert_eq!(key.raw_scancode, None);
    assert_eq!(key.key_name, "KEY_A");
    // An unknown key value is ignored and keeps the pending scan code.
    assert!(decoder.decode_event(RawInputEvent::new(EV_MSC, MSC_SCAN, 9)).is_none());
    assert!(decoder.decode_event(RawInputEvent::new(EV_KEY, 30, 5)).is_none());
    let key = decoder.decode_event(RawInputEvent::new(EV_KEY, 30, 2)).unwrap();
    assert_eq!(key.raw_scancode, Some(9));
    assert_eq!(key.state, KeyState::Repeat);
}

#[test]
fn right_modifiers_and_repeat_count_as_held() {
    let mut decoder = KeyboardEventDecoder::default();
    let events = decoder.decode_all(vec![
        RawInputEvent::new(EV_KEY, KEY_RIGHTSHIFT, 1),
        RawInputEvent::new(EV_KEY, KEY_RIGHTALT, 2),
        RawInputEvent::new(EV_KEY, KEY_RIGHTMETA, 1),
        RawInputEvent::new(EV_KEY, KEY_RIGHTSHIFT, 0),
    ]);
    assert_eq!(events.len(), 4);
    assert!(events[2].modifiers.shift && events[2].modifiers.alt && events[2].modifiers.meta);
    assert!(!events[3].modifiers.shift && events[3].modifiers.alt && !events[3].modifiers.ctrl);
}
