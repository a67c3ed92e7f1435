use lumameter::device::{
    cmd_device_list, cmd_run, find_device, is_access_denied, parse_device_id, DeviceAddress,
    RunDecision,
};

#[test]
fn parses_plain_bus_and_address() {
    assert_eq!(
        parse_device_id("1:2"),
        Some(DeviceAddress { bus: 1, address: 2 })
    );
    assert_eq!(
        parse_device_id("255:255"),
        Some(DeviceAddress { bus: 255, address: 255 })
    );
}

#[test]
fn parses_leading_zeros_and_plus_signs() {
    assert_eq!(
        parse_device_id("003:+7"),
        Some(DeviceAddress { bus: 3, address: 7 })
    );
    assert_eq!(
        parse_device_id("0001:00000002"),
        Some(DeviceAddress { bus: 1, address: 2 })
    );
}

#[test]
fn ignores_anything_after_a_second_colon() {
    assert_eq!(
        parse_device_id("1:2:3"),
        Some(DeviceAddress { bus: 1, address: 2 })
    );
    assert_eq!(
        parse_device_id("1:2:junk"),
        Some(DeviceAddress { bus: 1, address: 2 })
    );
}

#[test]
fn rejects_malformed_device_ids() {
    assert_eq!(parse_device_id(""), None);
    assert_eq!(parse_device_id("1"), None);
    assert_eq!(parse_device_id("1:"), None);
    assert_eq!(parse_device_id(":2"), None);
    assert_eq!(parse_device_id("x:2"), None);
    assert_eq!(parse_device_id("1:y"), None);
    assert_eq!(parse_device_id("+:1"), None);
    assert_eq!(parse_device_id("1+2:3"), None);
}

#[test]
fn rejects_values_over_a_byte() {
    assert_eq!(parse_device_id("256:1"), None);
    assert_eq!(parse_device_id("1:256"), None);
    assert_eq!(parse_device_id("99999999999999999999:1"), None);
}

#[test]
fn finds_the_first_matching_device() {
    let devices = vec![
        DeviceAddress { bus: 1, address: 2 },
        DeviceAddress { bus: 3, address: 4 },
        DeviceAddress { bus: 3, address: 4 },
    ];
    assert_eq!(find_device(&devices, DeviceAddress { bus: 3, address: 4 }), Some(1));
    assert_eq!(find_device(&devices, DeviceAddress { bus: 1, address: 2 }), Some(0));
    assert_eq!(find_device(&devices, DeviceAddress { bus: 5, address: 3 }), None);
}

#[test]
fn run_reports_a_missing_device() {
    // A well-formed id that matches no enumerated device ends the run mode
    // normally, with no capture and no pin initialization.
    let devices = vec![
        DeviceAddress { bus: 1, address: 2 },
        DeviceAddress { bus: 3, address: 4 },
    ];
    assert_eq!(cmd_run("5:3", &devices), RunDecision::DeviceNotFound);
}

#[test]
fn run_opens_the_requested_device() {
    let devices = vec![
        DeviceAddress { bus: 1, address: 2 },
        DeviceAddress { bus: 3, address: 4 },
    ];
    assert_eq!(cmd_run("3:4", &devices), RunDecision::Open { index: 1 });
}

#[test]
fn run_rejects_a_malformed_request() {
    let devices = vec![DeviceAddress { bus: 1, address: 2 }];
    assert_eq!(cmd_run("nonsense", &devices), RunDecision::InvalidDeviceId);
    assert_eq!(cmd_run("1", &devices), RunDecision::InvalidDeviceId);
}

#[test]
fn empty_enumeration_reports_zero_devices() {
    let devices: Vec<DeviceAddress> = Vec::new();
    assert_eq!(cmd_device_list(&devices), 0);
}

#[test]
fn device_list_counts_every_device() {
    let devices = vec![
        DeviceAddress { bus: 1, address: 2 },
        DeviceAddress { bus: 3, address: 4 },
        DeviceAddress { bus: 3, address: 5 },
    ];
    assert_eq!(cmd_device_list(&devices), 3);
}

#[test]
fn only_the_exact_access_denied_message_is_recoverable() {
    assert!(is_access_denied("Access denied"));
    assert!(!is_access_denied("access denied"));
    assert!(!is_access_denied("Access denied."));
    assert!(!is_access_denied(""));
}
