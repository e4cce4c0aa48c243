use android_emulator::android_emulator_panel::{
    AndroidEmulatorPanel, DockPosition, LaunchStep, ListBody, PanelAction, PanelMode, PanelView,
    RefreshPlan, RowAction, DEFAULT_GRPC_PORT,
};
use android_emulator::discovery::{AvdInfo, EmulatorStatus, StatusMap};
use android_emulator::sdk::{discover_sdk_root, sdk_locations, SdkLocation, SdkTools};

const ALL: SdkTools =
    SdkTools { avdmanager_latest: true, avdmanager_legacy: true, adb: true, emulator: true };
const NO_TOOLS: SdkTools =
    SdkTools { avdmanager_latest: false, avdmanager_legacy: false, adb: false, emulator: false };

type Panel = AndroidEmulatorPanel<&'static str>;

fn statuses(entries: &[(&str, &str)]) -> StatusMap {
    let mut map = StatusMap::new();
    for (name, serial) in entries {
        map.insert(name.to_string(), EmulatorStatus::Running { serial: serial.to_string() });
    }
    map
}

fn avd(name: &str) -> AvdInfo {
    AvdInfo {
        name: name.to_string(),
        target: "Android 13".to_string(),
        abi: "x86_64".to_string(),
        path: String::new(),
    }
}

fn panel() -> Panel {
    let (mut panel, _) = Panel::new(Some("/sdk"), &ALL);
    panel.finish_refresh(vec![avd("a"), avd("b")], statuses(&[("a", "emulator-5554")]));
    panel
}

fn shown_display(panel: &Panel) -> Option<(String, u16)> {
    match panel.render() {
        PanelView::Display { avd_name, grpc_port } => Some((avd_name, grpc_port)),
        PanelView::List(_) => None,
    }
}

#[test]
fn sdk_is_searched_in_order() {
    assert_eq!(
        sdk_locations(),
        vec![
            SdkLocation::Variable("ANDROID_SDK_ROOT"),
            SdkLocation::Variable("ANDROID_HOME"),
            SdkLocation::UnderHome("Library/Android/sdk"),
            SdkLocation::UnderHome("Android/Sdk"),
        ]
    );
    assert_eq!(discover_sdk_root(vec![None, Some(2), Some(3), None]), Some(2));
    assert_eq!(discover_sdk_root::<u8>(vec![None, None]), None);
}

#[test]
fn new_panel_refreshes() {
    let (panel, plan) = Panel::new(Some("/sdk"), &ALL);
    assert!(panel.is_refreshing && panel.avds.is_empty() && panel.emulator_status.is_empty());
    assert!(matches!(panel.mode, PanelMode::AvdList));
    assert_eq!(
        plan,
        RefreshPlan {
            avdmanager: Some("cmdline-tools/latest/bin/avdmanager"),
            adb: Some("platform-tools/adb")
        }
    );
}

#[test]
fn old_avdmanager_is_second_choice() {
    let tools = SdkTools { avdmanager_latest: false, ..ALL };
    assert_eq!(panel().avdmanager_path(&tools), Some("tools/bin/avdmanager"));
    assert_eq!(panel().avdmanager_path(&NO_TOOLS), None);
    assert_eq!(panel().emulator_path(&ALL), Some("emulator/emulator"));
}

#[test]
fn without_sdk_nothing_runs() {
    let (mut panel, plan) = Panel::new(None, &ALL);
    assert_eq!(plan, RefreshPlan { avdmanager: None, adb: None });
    assert!(panel.launch_avd("a".to_string(), Some(1), &ALL).is_none());
    panel.finish_refresh(vec![avd("a")], statuses(&[("a", "emulator-5554")]));
    assert!(panel.stop_avd("a".to_string(), &ALL).is_none());
    match panel.render() {
        PanelView::List(body) => assert_eq!(body.note(), Some("Android SDK not found")),
        PanelView::Display { .. } => panic!("the list is shown"),
    }
}

#[test]
fn refresh_from_output() {
    let (mut panel, _) = Panel::new(Some("/sdk"), &ALL);
    panel.finish_refresh_from_output(
        Some(b"Name: a\n\nName: b\n"),
        Some(b"List of devices attached\nemulator-5554\tdevice\n"),
        &vec![Some(b"b\r\nOK\r\n".to_vec())],
    );
    assert!(!panel.is_refreshing);
    assert_eq!(panel.avds.len(), 2);
    match panel.render() {
        PanelView::List(ListBody::Rows(rows)) => {
            assert_eq!(rows.iter().map(|row| row.is_running).collect::<Vec<_>>(), vec![false, true]);
        }
        _ => panic!("the rows are shown"),
    }
    panel.refresh_without_window(&ALL);
    assert!(panel.is_refreshing);
    panel.finish_refresh_from_output(None, None, &vec![]);
    assert!(panel.avds.is_empty() && panel.emulator_status.is_empty());
}

#[test]
fn list_bodies() {
    let mut panel = panel();
    panel.refresh(&ALL);
    assert!(matches!(panel.render(), PanelView::List(ListBody::Refreshing)));
    panel.finish_refresh(vec![], StatusMap::new());
    assert!(matches!(panel.render(), PanelView::List(ListBody::NoAvds)));
    assert_eq!(ListBody::Refreshing.note(), Some("Refreshing\u{2026}"));
    assert_eq!(
        ListBody::NoAvds.note(),
        Some("No AVDs found. Create one using avdmanager or Android Studio.")
    );
    assert_eq!(ListBody::Rows(vec![]).note(), None);
}

#[test]
fn rows_offer_what_the_status_allows() {
    let mut panel = panel();
    panel.select_avd("b".to_string());
    let rows = match panel.render() {
        PanelView::List(ListBody::Rows(rows)) => rows,
        _ => panic!("the rows are shown"),
    };
    assert_eq!(rows.len(), 2);
    assert_eq!(rows[0].avd_name, "a");
    assert_eq!(rows[0].subtitle, "Android 13 \u{b7} x86_64");
    assert_eq!((rows[0].is_selected, rows[1].is_selected), (false, true));
    let buttons: Vec<(&str, RowAction)> =
        rows[0].buttons.iter().map(|b| (b.id.as_str(), b.action)).collect();
    assert_eq!(buttons, vec![("open-a", RowAction::Open), ("stop-a", RowAction::Stop)]);
    assert_eq!(rows[1].buttons.len(), 1);
    assert_eq!(rows[1].buttons[0].id, "launch-b");
    assert_eq!(rows[1].buttons[0].action.tooltip(), "Launch emulator");
    assert_eq!(RowAction::Open.tooltip(), "Open display");
    assert_eq!(RowAction::Stop.tooltip(), "Stop emulator");
}

#[test]
fn display_opens_at_the_port_of_the_serial() {
    let mut panel = panel();
    assert!(panel.can_open("a"));
    panel.open_avd("a".to_string());
    assert_eq!(shown_display(&panel), Some(("a".to_string(), 8554)));
    panel.open_avd("b".to_string());
    assert_eq!(shown_display(&panel), Some(("b".to_string(), DEFAULT_GRPC_PORT)));
    panel.finish_refresh(vec![], statuses(&[("c", "emulator-5600"), ("d", "emulator-65000")]));
    panel.open_avd("c".to_string());
    assert_eq!(shown_display(&panel), Some(("c".to_string(), 8600)));
    assert!(!panel.can_open("d"));
    let plan = panel.close_display(&ALL);
    assert!(shown_display(&panel).is_none() && panel.is_refreshing && plan.adb.is_some());
}

#[test]
fn launch_waits_for_the_emulator() {
    let mut panel = panel();
    let mut task = panel.launch_avd("b".to_string(), Some(9000), &ALL).unwrap();
    assert_eq!(task.args(), vec!["-avd", "b", "-no-window", "-grpc", "9000"]);
    assert_eq!((task.emulator, task.adb), ("emulator/emulator", Some("platform-tools/adb")));
    panel.emulator_started(77);
    assert_eq!(task.started(), LaunchStep::Poll);
    assert_eq!(task.polled(&statuses(&[("a", "emulator-5554")])), LaunchStep::Poll);
    assert_eq!(task.polled(&statuses(&[("b", "emulator-5556")])), LaunchStep::Open);
    let plan = panel.finish_launch(task, &ALL);
    assert_eq!(shown_display(&panel), Some(("b".to_string(), 9000)));
    assert!(panel.is_refreshing && plan.avdmanager.is_some());
    assert_eq!(panel.launched_emulator_process_ids, vec![77]);
}

#[test]
fn launch_gives_up_after_45_looks() {
    let mut task = panel().launch_avd("b".to_string(), None, &ALL).unwrap();
    assert_eq!(task.grpc_port, 8554);
    let nothing = statuses(&[]);
    for _ in 0..44 {
        assert_eq!(task.polled(&nothing), LaunchStep::Poll);
    }
    assert_eq!(task.polled(&nothing), LaunchStep::GiveUp);
}

#[test]
fn launch_without_adb_opens_at_once() {
    let tools = SdkTools { adb: false, ..ALL };
    let task = panel().launch_avd("b".to_string(), Some(1), &tools).unwrap();
    assert_eq!(task.adb, None);
    assert_eq!(task.started(), LaunchStep::Open);
    assert!(panel().launch_avd("b".to_string(), Some(1), &NO_TOOLS).is_none());
}

#[test]
fn stop_closes_its_own_display() {
    let mut panel = panel();
    let task = panel.stop_avd("a".to_string(), &ALL).unwrap();
    assert_eq!(task.args(), vec!["-s", "emulator-5554", "emu", "kill"]);
    assert_eq!(task.adb, "platform-tools/adb");
    assert!(panel.stop_avd("b".to_string(), &ALL).is_none());
    assert!(panel.stop_avd("a".to_string(), &NO_TOOLS).is_none());
    panel.open_display("b".to_string(), 1);
    panel.finish_stop(&task, &ALL);
    assert_eq!(shown_display(&panel), Some(("b".to_string(), 1)));
    panel.open_display("a".to_string(), 1);
    panel.finish_stop(&task, &ALL);
    assert!(shown_display(&panel).is_none() && panel.is_refreshing);
}

#[test]
fn quitting_terminates_each_emulator_once() {
    let mut panel = panel();
    panel.emulator_started(12);
    panel.emulator_started(4294967295);
    assert_eq!(
        panel.app_will_quit(),
        vec![vec!["-TERM", "12"], vec!["-TERM", "4294967295"]]
    );
    assert!(panel.app_will_quit().is_empty());
}

#[test]
fn toggling_closes_a_focused_panel() {
    assert!(PanelAction::Toggle.closes_panel(false));
    assert!(!PanelAction::Toggle.closes_panel(true));
    assert!(!PanelAction::ToggleFocus.closes_panel(false));
    assert_eq!(panel().position(), DockPosition::Right);
    assert!(panel().position_is_valid(DockPosition::Bottom));
}
