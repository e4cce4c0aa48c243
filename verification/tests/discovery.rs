use android_emulator::discovery::{
    avd_list_args, console_port_from_serial, devices_args, flush_avd_block, grpc_port_from_serial,
    list_avds, list_running_emulators, list_serials, name_query, parse_avd_list, parse_avd_name,
    parse_serials, running_emulators, AvdInfo, EmulatorStatus,
};
use vstd::hash_map::StringHashMap;

fn running(serial: &str) -> EmulatorStatus {
    EmulatorStatus::Running { serial: serial.to_string() }
}

fn fields(avd: &AvdInfo) -> (&str, &str, &str, &str) {
    (&avd.name, &avd.target, &avd.abi, &avd.path)
}

#[test]
fn grpc_port_is_console_port_plus_3000() {
    assert_eq!(grpc_port_from_serial("emulator-5554"), Some(8554));
    assert_eq!(grpc_port_from_serial("emulator-+5556"), Some(8556));
    assert_eq!(grpc_port_from_serial("emulator-0"), Some(3000));
    assert_eq!(grpc_port_from_serial("emulator-62535"), Some(65535));
}

#[test]
fn other_serials_have_no_grpc_port() {
    assert_eq!(grpc_port_from_serial("emulator-"), None);
    assert_eq!(grpc_port_from_serial("emulator-x"), None);
    assert_eq!(grpc_port_from_serial("emulator-70000"), None);
    assert_eq!(grpc_port_from_serial("R58M123ABC"), None);
    assert_eq!(grpc_port_from_serial(""), None);
    assert_eq!(console_port_from_serial("emulator-65535"), Some(65535));
}

const LISTING: &str = "Available Android Virtual Devices:\r
    Name: Pixel_6
    Path: /home/u/.android/avd/Pixel_6.avd
    Based on: Android 13.0 (\"Tiramisu\")
    Tag/ABI: google_apis/x86_64

    Device: nameless
\t
    Name: Bare
";

#[test]
fn avds_come_one_per_named_block() {
    let avds = parse_avd_list(LISTING);
    assert_eq!(avds.len(), 2);
    assert_eq!(
        fields(&avds[0]),
        (
            "Pixel_6",
            "Android 13.0 (\"Tiramisu\")",
            "google_apis/x86_64",
            "/home/u/.android/avd/Pixel_6.avd"
        )
    );
    assert_eq!(fields(&avds[1]), ("Bare", "Unknown", "Unknown", ""));
}

#[test]
fn last_line_with_a_key_wins() {
    let avds = parse_avd_list("Name: a\nName: b:c\n");
    assert_eq!(avds.len(), 1);
    assert_eq!(avds[0].name, "b:c");
}

#[test]
fn blank_line_separates_listings() {
    let both = parse_avd_list("Name: a\n\nName: b\n");
    let names: Vec<&str> = both.iter().map(|avd| avd.name.as_str()).collect();
    assert_eq!(names, vec!["a", "b"]);
    assert_eq!(parse_avd_list("").len(), 0);
}

#[test]
fn written_devices_are_read_back() {
    let text = "Name: n\nPath: /p q\nBased on: t: u\nTag/ABI: \n\nName: m\nPath: \nBased on: x\nTag/ABI: y\n\n";
    let avds = parse_avd_list(text);
    assert_eq!(avds.len(), 2);
    assert_eq!(fields(&avds[0]), ("n", "t: u", "", "/p q"));
    assert_eq!(fields(&avds[1]), ("m", "x", "y", ""));
}

#[test]
fn bytes_that_are_not_text_are_replaced() {
    let avds = list_avds(b"Name: A\xffB\n");
    assert_eq!(avds.len(), 1);
    assert_eq!(avds[0].name, "A\u{fffd}B");
    assert_eq!(list_avds("Name: \u{e9}".as_bytes())[0].name, "\u{e9}");
}

#[test]
fn flushing_clears_the_fields() {
    let mut current: StringHashMap<String> = StringHashMap::new();
    let mut avds = Vec::new();
    current.insert("Path".to_string(), "/x".to_string());
    flush_avd_block(&mut current, &mut avds);
    assert!(avds.is_empty() && current.is_empty());
    current.insert("Name".to_string(), "n".to_string());
    flush_avd_block(&mut current, &mut avds);
    assert_eq!(fields(&avds[0]), ("n", "Unknown", "Unknown", ""));
    assert!(current.is_empty());
}

const DEVICES: &[u8] = b"List of devices attached
emulator-5554\tdevice
emulator-5556\toffline
R58M123ABC\tdevice
emulator-5558 device product:x

emulator-5560
";

#[test]
fn only_emulators_that_are_up_are_asked() {
    assert_eq!(list_serials(DEVICES), vec!["emulator-5554", "emulator-5558"]);
    assert!(parse_serials("emulator-5554\tdevice").is_empty());
    assert!(parse_serials("").is_empty());
}

#[test]
fn commands_of_the_tools() {
    assert_eq!(avd_list_args(), vec!["list", "avd"]);
    assert_eq!(devices_args(), vec!["devices"]);
    assert_eq!(name_query("emulator-5554"), vec!["-s", "emulator-5554", "emu", "avd", "name"]);
}

#[test]
fn avd_name_is_the_first_line_of_the_answer() {
    assert_eq!(parse_avd_name(" Pixel_6 \r\nOK\r\n"), Some("Pixel_6".to_string()));
    assert_eq!(parse_avd_name("\nOK"), None);
    assert_eq!(parse_avd_name(""), None);
}

#[test]
fn running_emulators_are_known_by_their_avd_names() {
    let answers = vec![Some(b"Pixel_6\r\nOK\r\n".to_vec()), None];
    let statuses = list_running_emulators(DEVICES, &answers);
    assert_eq!(statuses.len(), 1);
    assert_eq!(statuses.get("Pixel_6"), Some(&running("emulator-5554")));
    assert_eq!(statuses.get("Other"), None);
    let lossy = list_running_emulators(DEVICES, &vec![None, Some(b"\xff\n".to_vec())]);
    assert_eq!(lossy.get("\u{fffd}"), Some(&running("emulator-5558")));
}

#[test]
fn last_report_of_a_name_wins() {
    let serials = vec!["emulator-1".to_string(), "emulator-2".to_string(), "emulator-3".to_string()];
    let answers = vec![Some("a".to_string()), Some("a\n".to_string())];
    let statuses = running_emulators(&serials, &answers);
    assert_eq!(statuses.len(), 1);
    assert_eq!(statuses.get("a"), Some(&running("emulator-2")));
}
