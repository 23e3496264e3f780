use sysex_drop::{device_to_reselect, find_device, port_for, roster_changed, selected_index, ConnectError};

fn roster(names: &[&str]) -> Vec<String> {
    names.iter().map(|n| n.to_string()).collect()
}

#[test]
fn roster_change_detection() {
    let a = roster(&["Synth", "Drum"]);
    assert!(!roster_changed(&a, &roster(&["Synth", "Drum"])));
    assert!(roster_changed(&a, &roster(&["Synth"])));
    assert!(roster_changed(&a, &roster(&["Synth", "Pad"])));
    assert!(roster_changed(&roster(&[]), &a));
}

#[test]
fn device_lookup() {
    let r = roster(&["Synth", "Drum", "Synth"]);
    assert_eq!(find_device(&r, &"Drum".to_string()), Some(1));
    assert_eq!(find_device(&r, &"Synth".to_string()), Some(0));
    assert_eq!(find_device(&r, &"Pad".to_string()), None);
    assert_eq!(port_for(&r, &"Drum".to_string()), Ok(1));
    assert_eq!(port_for(&r, &"Pad".to_string()), Err(ConnectError::DeviceNotFound));
}

#[test]
fn shown_selection() {
    let r = roster(&["Synth", "Drum"]);
    assert_eq!(selected_index(&r, &Some("Drum".to_string())), 1);
    assert_eq!(selected_index(&r, &Some("Pad".to_string())), 0);
    assert_eq!(selected_index(&r, &None), 0);
}

#[test]
fn reselect_only_after_a_change() {
    let stored = Some("Synth".to_string());
    assert_eq!(device_to_reselect(true, &stored), Some("Synth".to_string()));
    assert_eq!(device_to_reselect(false, &stored), None);
    assert_eq!(device_to_reselect(true, &None), None);
}
