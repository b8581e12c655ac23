use enja::devices::{
    audio_input_devices_from_names, format_device_id, parse_audio_input_device_id,
    select_input_device,
};

#[test]
fn parse_audio_input_device_id_reads_trailing_index_only() {
    assert_eq!(
        parse_audio_input_device_id("MacBook Pro Microphone#0").as_deref(),
        Some("MacBook Pro Microphone")
    );
    assert_eq!(parse_audio_input_device_id("Studio #1#2").as_deref(), Some("Studio #1"));
    assert_eq!(parse_audio_input_device_id("invalid").as_deref(), None);
    assert_eq!(parse_audio_input_device_id("Mic#abc").as_deref(), None);
}

#[test]
fn device_id_without_name_is_rejected() {
    assert_eq!(parse_audio_input_device_id("#3"), None);
}

#[test]
fn device_list_skips_own_tap_and_marks_unique_default() {
    let names = vec![
        "Mic".to_string(),
        "Enja Tap".to_string(),
        "USB".to_string(),
        "USB".to_string(),
    ];
    let devices = audio_input_devices_from_names(&names, &Some("Mic".to_string()));
    assert_eq!(devices.len(), 3);
    assert_eq!(devices[0].id, "Mic#0");
    assert!(devices[0].is_default);
    assert_eq!(devices[1].id, "USB#2");
    assert_eq!(devices[2].id, "USB#3");

    let devices = audio_input_devices_from_names(&names, &Some("USB".to_string()));
    assert!(devices.iter().all(|d| !d.is_default));
}

#[test]
fn selection_prefers_exact_id_then_unique_name() {
    let names = vec!["Mic".to_string(), "USB".to_string(), "USB".to_string()];
    assert_eq!(select_input_device(&names, Some("USB#2")), Some(2));
    assert_eq!(select_input_device(&names, Some("Mic#7")), Some(0));
    assert_eq!(select_input_device(&names, Some("USB#9")), None);
    assert_eq!(select_input_device(&names, None), None);
    assert_eq!(format_device_id("Mic", 12), "Mic#12");
}

#[test]
fn a_formatted_id_reads_back_its_name() {
    let id = format_device_id("USB Mic #2", 12);
    assert_eq!(id, "USB Mic #2#12");
    assert_eq!(parse_audio_input_device_id(&id).as_deref(), Some("USB Mic #2"));
    assert_eq!(parse_audio_input_device_id(&format_device_id("", 3)), None);
}
