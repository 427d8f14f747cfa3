use breaklock::{find_event, Device};

fn dev(path: &str, name: &str) -> Device {
    Device { event_path: path.to_string(), name: name.to_string() }
}

#[test]
fn find_event_keeps_exact_name_matches_in_order() {
    let devices = vec![
        dev("/dev/input/event3", "HID 046a:010d"),
        dev("/dev/input/event5", "HSMshift"),
        dev("/dev/input/event7", "HID 046a:010d"),
        dev("/dev/input/event9", "HID 046a:010d Consumer Control"),
    ];
    let found = find_event(devices, "HID 046a:010d");
    let paths: Vec<&str> = found.iter().map(|d| d.event_path.as_str()).collect();
    assert_eq!(paths, vec!["/dev/input/event3", "/dev/input/event7"]);
}

#[test]
fn find_event_with_no_match_is_empty() {
    let devices = vec![dev("/dev/input/event5", "HSMshift")];
    assert!(find_event(devices, "Hippus N.V. HSMshift").is_empty());
    assert!(find_event(Vec::new(), "HSMshift").is_empty());
}
