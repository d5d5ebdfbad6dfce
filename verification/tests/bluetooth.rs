use hypr_panel::bluetooth_listener::adapter_powered;
use hypr_panel::bluetooth_listener::after_device_query;
use hypr_panel::bluetooth_listener::after_status_query;
use hypr_panel::bluetooth_listener::connected_device_names;
use hypr_panel::bluetooth_listener::get_bluetooth_info;
use hypr_panel::bluetooth_listener::is_change_line;
use hypr_panel::bluetooth_listener::BluetoothInfo;
use hypr_panel::bluetooth_listener::StatusOutcome;
use hypr_panel::bluetooth_listener::KEEPALIVE_INPUT;
use hypr_panel::snapshot::ChangeFilter;
use hypr_panel::snapshot::Snapshot;

const SHOW_ON: &str = "Controller AA:BB:CC:DD:EE:FF (public)\n\tName: host\n\tPowered: yes\n\tDiscoverable: no\n";
const SHOW_OFF: &str = "Controller AA:BB:CC:DD:EE:FF (public)\n\tName: host\n\tPowered: no\n\tDiscoverable: no\n";
const DEVICES: &str = "Device 11:22:33:44:55:66 WH-1000XM4\nDevice 77:88:99:AA:BB:CC MX Master 3\n";

fn bluetooth(enabled: bool, names: &[&str]) -> BluetoothInfo {
    BluetoothInfo {
        enabled,
        connected_devices: names.iter().map(|n| n.to_string()).collect(),
    }
}

#[test]
fn powered_line_is_found_among_the_lines() {
    assert!(adapter_powered(SHOW_ON));
    assert!(!adapter_powered(SHOW_OFF));
    assert!(adapter_powered("Powered: yes"));
    assert!(adapter_powered("  Powered: yes  \r\n"));
    assert!(!adapter_powered(""));
    assert!(!adapter_powered("Powered: yes please"));
    assert!(!adapter_powered("Powered:yes"));
    assert!(!adapter_powered("powered: yes"));
    assert!(!adapter_powered("Powered:\nyes"));
}

#[test]
fn names_are_what_follows_the_second_space() {
    assert_eq!(connected_device_names(DEVICES), vec!["WH-1000XM4", "MX Master 3"]);
    assert_eq!(connected_device_names(""), Vec::<String>::new());
    assert_eq!(connected_device_names("Device 11:22:33:44:55:66\n"), Vec::<String>::new());
    assert_eq!(connected_device_names("Device\n"), Vec::<String>::new());
    assert_eq!(connected_device_names("Device 11:22:33:44:55:66 \n"), vec![""]);
    assert_eq!(connected_device_names("a  b\n"), vec!["b"]);
    assert_eq!(connected_device_names("a b c d\r\nx\ne f  g"), vec!["c d", " g"]);
}

#[test]
fn powered_adapter_asks_for_the_devices() {
    assert!(matches!(after_status_query(Some(SHOW_ON.as_bytes())), StatusOutcome::QueryDevices));
    assert_eq!(
        after_device_query(Some(DEVICES.as_bytes())),
        Some(bluetooth(true, &["WH-1000XM4", "MX Master 3"]))
    );
    assert_eq!(after_device_query(Some("".as_bytes())), Some(bluetooth(true, &[])));
}

#[test]
fn unpowered_adapter_skips_the_device_query() {
    match after_status_query(Some(SHOW_OFF.as_bytes())) {
        StatusOutcome::Done(info) => assert_eq!(info, bluetooth(false, &[])),
        other => panic!("device query was not skipped: {:?}", other),
    }
    match after_status_query(Some("".as_bytes())) {
        StatusOutcome::Done(info) => assert_eq!(info, bluetooth(false, &[])),
        other => panic!("device query was not skipped: {:?}", other),
    }
}

#[test]
fn failed_bluetooth_query_skips_the_cycle() {
    assert!(matches!(after_status_query(None), StatusOutcome::Skip));
    assert_eq!(after_device_query(None), None);
    assert_eq!(get_bluetooth_info(None, Some(DEVICES.as_bytes())), None);
    assert_eq!(get_bluetooth_info(None, None), None);
    assert_eq!(get_bluetooth_info(Some(SHOW_ON.as_bytes()), None), None);
}

#[test]
fn disabled_adapter_has_no_devices_whatever_is_listed() {
    assert_eq!(
        get_bluetooth_info(Some(SHOW_OFF.as_bytes()), Some(DEVICES.as_bytes())),
        Some(bluetooth(false, &[]))
    );
    assert_eq!(get_bluetooth_info(Some(SHOW_OFF.as_bytes()), None), Some(bluetooth(false, &[])));
    assert_eq!(BluetoothInfo::disabled(), bluetooth(false, &[]));
}

#[test]
fn enabled_adapter_lists_its_devices() {
    assert_eq!(
        get_bluetooth_info(Some(SHOW_ON.as_bytes()), Some(DEVICES.as_bytes())),
        Some(bluetooth(true, &["WH-1000XM4", "MX Master 3"]))
    );
    assert_eq!(
        get_bluetooth_info(Some(SHOW_ON.as_bytes()), Some("".as_bytes())),
        Some(bluetooth(true, &[]))
    );
}

#[test]
fn ill_formed_bytes_are_replaced_not_refused() {
    let mut show: Vec<u8> = vec![0xff, b'\n'];
    show.extend_from_slice(b"\tPowered: yes\n");
    let mut devices: Vec<u8> = b"Device 11:22:33:44:55:66 Pod".to_vec();
    devices.push(0xff);
    devices.extend_from_slice(b"s\n");
    assert_eq!(
        get_bluetooth_info(Some(&show), Some(&devices)),
        Some(bluetooth(true, &["Pod\u{fffd}s"]))
    );
}

#[test]
fn change_lines_hold_the_marker_and_a_keyword() {
    assert!(is_change_line("[CHG] Device 11:22:33:44:55:66 Connected: yes"));
    assert!(is_change_line("[CHG] Controller AA:BB:CC:DD:EE:FF Powered: no"));
    assert!(is_change_line("Powered [CHG]"));
    assert!(!is_change_line("[CHG] Device 11:22:33:44:55:66 RSSI: -60"));
    assert!(!is_change_line("[NEW] Device 11:22:33:44:55:66 Connected: yes"));
    assert!(!is_change_line("Device 11:22:33:44:55:66 Connected: yes"));
    assert!(!is_change_line("[CHG] Device connected"));
    assert!(!is_change_line("[chg] Powered: yes"));
    assert!(!is_change_line(""));
}

#[test]
fn keepalive_is_an_empty_line() {
    assert_eq!(KEEPALIVE_INPUT, "\n");
}

#[test]
fn bluetooth_snapshots_compare_by_value() {
    let a = bluetooth(true, &["A", "B"]);
    assert!(a.same(&bluetooth(true, &["A", "B"])));
    assert!(!a.same(&bluetooth(true, &["B", "A"])));
    assert!(!a.same(&bluetooth(true, &["A"])));
    assert!(!a.same(&bluetooth(true, &["A", "B", "C"])));
    assert!(!a.same(&bluetooth(true, &["A", "b"])));
    assert!(!a.same(&bluetooth(false, &["A", "B"])));
    assert!(bluetooth(true, &[]).same(&bluetooth(true, &[])));
    assert_eq!(a.duplicate(), a);
    assert_eq!(a.clone(), a);
    assert!(a != bluetooth(true, &[]));
}

#[test]
fn stable_bluetooth_is_emitted_once() {
    let mut filter: ChangeFilter<BluetoothInfo> = ChangeFilter::new();
    let read = || get_bluetooth_info(Some(SHOW_ON.as_bytes()), Some(DEVICES.as_bytes()));
    assert_eq!(filter.offer(read()), Some(bluetooth(true, &["WH-1000XM4", "MX Master 3"])));
    assert_eq!(filter.offer(read()), None);
    assert_eq!(filter.offer(read()), None);
    assert_eq!(
        filter.offer(get_bluetooth_info(Some(SHOW_OFF.as_bytes()), None)),
        Some(bluetooth(false, &[]))
    );
}

#[test]
fn skipped_bluetooth_cycle_emits_nothing_and_forgets_nothing() {
    let mut filter: ChangeFilter<BluetoothInfo> = ChangeFilter::new();
    let read = || get_bluetooth_info(Some(SHOW_ON.as_bytes()), Some(DEVICES.as_bytes()));
    assert_eq!(filter.offer(get_bluetooth_info(None, None)), None);
    assert_eq!(filter.offer(read()), Some(bluetooth(true, &["WH-1000XM4", "MX Master 3"])));
    assert_eq!(filter.offer(get_bluetooth_info(Some(SHOW_ON.as_bytes()), None)), None);
    assert_eq!(filter.offer(get_bluetooth_info(None, Some(DEVICES.as_bytes()))), None);
    assert_eq!(filter.offer(read()), None);
}
