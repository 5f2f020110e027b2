use wcircle::device_scan::find_touchpad_device;

fn scan(text: &str) -> Option<String> {
    let chars: Vec<char> = text.chars().collect();
    find_touchpad_device(&chars).map(|v| v.into_iter().collect())
}

#[test]
fn finds_touchpad_after_its_event_line() {
    let listing = "Available devices:\n\
        Event: /dev/input/event3:\tAT Translated Set 2 keyboard\n\
        Event: /dev/input/event16 \r\n\
        \tSynPS/2 Synaptics TouchPad\n\
        Event: /dev/input/event17\n\
        \tALPS\n";
    assert_eq!(scan(listing), Some("/dev/input/event16".to_string()));
}

#[test]
fn event_and_name_on_one_line() {
    let listing = "/dev/input/event2:\tPower Button\n\
        Event: /dev/input/event5:\tELAN ETPS/2 Elantech Touchpad\u{a0} \n";
    assert_eq!(
        scan(listing),
        Some("/dev/input/event5:\tELAN ETPS/2 Elantech Touchpad".to_string())
    );
}

#[test]
fn keyword_before_any_event_line_is_skipped() {
    assert_eq!(scan("TouchPad\nEvent: /dev/input/event9\n"), None);
    assert_eq!(scan("TouchPad\nEvent: /dev/input/event9\nALPS"), Some("/dev/input/event9".to_string()));
}

#[test]
fn nothing_found() {
    assert_eq!(scan(""), None);
    assert_eq!(scan("\n\n"), None);
    assert_eq!(scan("Event: /dev/input/event1 Mouse\nEvent: /dev/input/event2 Keyboard"), None);
    assert_eq!(scan("Synaptics on /dev/input/event4"), None);
}
