use usb_configurator::commands::{
    action_tested, binding_deleted, binding_saved, delete_binding, get_all_bindings, get_binding,
    get_device_info, get_logs, get_monitoring_state, get_settings, list_devices, logs_cleared,
    plan_test, refresh_devices, refresh_notes, settings_saved, start_monitoring, stop_monitoring,
    test_action, MonitoringPlan, TestStart, FIND_BY_PRESS_TIMEOUT_MS,
};
use usb_configurator::config::{ConfigData, ConfigManager};
use usb_configurator::hid::{DeviceRefreshResult, HidManager, RawDeviceInfo};
use usb_configurator::hotkey::Platform;
use usb_configurator::listener::Effect;
use usb_configurator::types::{
    ActionConfig, ActionType, AppSettings, DeviceBinding, DeviceStatus, LogEntry, LogEntryLevel,
    Theme, TriggerType,
};

fn info(vendor_id: u16, product_id: u16) -> RawDeviceInfo {
    RawDeviceInfo {
        vendor_id,
        product_id,
        product_string: None,
        manufacturer_string: None,
        serial_number: None,
        interface_number: 0,
    }
}

fn action(action_type: ActionType, path: &str, arguments: &str) -> ActionConfig {
    ActionConfig {
        action_type,
        executable_path: path.to_string(),
        arguments: arguments.to_string(),
        working_directory: Some("dir".to_string()),
        run_as_admin: None,
    }
}

fn binding(id: &str, device_id: &str) -> DeviceBinding {
    DeviceBinding::stamped(
        id.to_string(),
        "t".to_string(),
        device_id.to_string(),
        device_id[..4].to_string(),
        device_id[5..].to_string(),
        TriggerType::SinglePress,
        action(ActionType::LaunchApp, "app", ""),
    )
}

fn lines(logs: &[LogEntry]) -> Vec<(LogEntryLevel, String, Option<String>)> {
    logs.iter().rev().map(|e| (e.level, e.message.clone(), e.source.clone())).collect()
}

fn line(level: LogEntryLevel, message: &str, source: &str) -> (LogEntryLevel, String, Option<String>) {
    (level, message.to_string(), Some(source.to_string()))
}

fn spawn(start: &TestStart) -> (String, Vec<String>, Option<String>) {
    match start {
        TestStart::Run(Effect::Spawn(r)) => (r.program.clone(), r.args.clone(), r.working_dir.clone()),
        other => panic!("unexpected: {:?}", other),
    }
}

fn spawned(program: &str, args: &[&str]) -> (String, Vec<String>, Option<String>) {
    (program.to_string(), args.iter().map(|a| a.to_string()).collect(), None)
}

#[test]
fn device_list_is_answered() {
    let mut hid = HidManager::new();
    hid.set_device_configured("0002:0002");
    let r = list_devices(&mut hid, Ok(vec![info(1, 1), info(2, 2), info(1, 1)]));
    assert!(r.success);
    assert_eq!(r.error, None);
    let devices = r.data.unwrap();
    assert_eq!(devices.len(), 2);
    assert_eq!(devices[0].id, "0001:0001");
    assert_eq!(devices[1].status, DeviceStatus::Configured);
}

#[test]
fn device_list_reports_a_failed_enumeration() {
    let mut hid = HidManager::new();
    let r = list_devices(&mut hid, Err("no backend".to_string()));
    assert!(!r.success);
    assert!(r.data.is_none());
    assert_eq!(r.error.as_deref(), Some("Failed to initialize HID API: no backend"));
}

#[test]
fn refresh_logs_what_it_found_and_what_has_gone() {
    let mut hid = HidManager::new();
    let mut config = ConfigManager::new(None, None);
    let first = refresh_devices(&mut hid, &mut config, Ok(vec![info(1, 1), info(2, 2), info(3, 3)]));
    assert!(first.answer.success);
    assert!(first.disconnected_ids.is_empty());
    let second = refresh_devices(&mut hid, &mut config, Ok(vec![info(2, 2)]));
    assert_eq!(second.answer.data.unwrap().len(), 1);
    assert_eq!(second.disconnected_ids, vec!["0001:0001", "0003:0003"]);
    assert_eq!(
        lines(config.logs()),
        vec![
            line(LogEntryLevel::Info, "Found 3 HID devices", "HID"),
            line(LogEntryLevel::Info, "Found 1 HID devices", "HID"),
            line(LogEntryLevel::Warn, "Device disconnected: 0001:0001", "0001:0001"),
            line(LogEntryLevel::Warn, "Device disconnected: 0003:0003", "0003:0003"),
        ]
    );
}

#[test]
fn refresh_that_cannot_enumerate_changes_nothing() {
    let mut hid = HidManager::new();
    let mut config = ConfigManager::new(None, None);
    refresh_devices(&mut hid, &mut config, Ok(vec![info(1, 1)]));
    let failed = refresh_devices(&mut hid, &mut config, Err("gone".to_string()));
    assert!(!failed.answer.success);
    assert_eq!(failed.answer.error.as_deref(), Some("Failed to initialize HID API: gone"));
    assert!(failed.disconnected_ids.is_empty());
    assert_eq!(config.logs().len(), 1);
    let after = refresh_devices(&mut hid, &mut config, Ok(Vec::new()));
    assert_eq!(after.disconnected_ids, vec!["0001:0001"]);
}

#[test]
fn notes_of_a_refresh_count_the_devices() {
    let result = DeviceRefreshResult { devices: Vec::new(), disconnected_ids: vec!["AF88:6688".to_string()] };
    let notes = refresh_notes(&result);
    assert_eq!(notes.len(), 2);
    assert_eq!(notes[0].message, "Found 0 HID devices");
    assert_eq!(notes[0].source.as_deref(), Some("HID"));
    assert_eq!(notes[1].message, "Device disconnected: AF88:6688");
    assert_eq!(notes[1].level, LogEntryLevel::Warn);
    assert_eq!(notes[1].source.as_deref(), Some("AF88:6688"));
}

#[test]
fn one_device_is_answered_or_reported_missing() {
    let mut hid = HidManager::new();
    hid.set_device_configured("0001:0001");
    let infos = vec![info(1, 1)];
    let r = get_device_info(&hid, "0001:0001", &infos);
    assert!(r.success);
    assert_eq!(r.data.unwrap().status, DeviceStatus::Configured);
    let r = get_device_info(&hid, "0001:0002", &infos);
    assert!(!r.success);
    assert!(r.data.is_none());
    assert_eq!(r.error.as_deref(), Some("Device not found: 0001:0002"));
    let r = get_device_info(&hid, "nonsense", &infos);
    assert_eq!(r.error.as_deref(), Some("Device not found: nonsense"));
}

#[test]
fn session_starts_with_raw_input_on_windows() {
    let mut hid = HidManager::new();
    let mut config = ConfigManager::new(None, None);
    assert_eq!(start_monitoring(&mut config, &mut hid, Platform::Windows), MonitoringPlan::RawInput);
    assert!(!hid.is_monitoring());
    assert_eq!(
        lines(config.logs()),
        vec![line(
            LogEntryLevel::Info,
            "Started 'Find by Press' monitoring - press any button on your device",
            "Input"
        )]
    );
}

#[test]
fn session_starts_with_polling_elsewhere() {
    let mut hid = HidManager::new();
    let mut config = ConfigManager::new(None, None);
    let plan = start_monitoring(&mut config, &mut hid, Platform::Other);
    assert_eq!(plan, MonitoringPlan::HidPoll { timeout_ms: 500 });
    assert_eq!(FIND_BY_PRESS_TIMEOUT_MS, 500);
    assert!(hid.is_monitoring());
    assert!(get_monitoring_state(&hid).data.unwrap().is_active);
    assert_eq!(config.logs().len(), 1);
}

#[test]
fn session_is_stopped() {
    let mut hid = HidManager::new();
    let mut config = ConfigManager::new(None, None);
    start_monitoring(&mut config, &mut hid, Platform::Other);
    let r = stop_monitoring(&mut config, &mut hid);
    assert!(r.success);
    assert_eq!(r.data, Some(()));
    assert!(!hid.is_monitoring());
    assert_eq!(lines(config.logs())[1], line(LogEntryLevel::Info, "Stopped monitoring", "HID"));
    let state = get_monitoring_state(&hid);
    assert!(state.success);
    assert!(!state.data.unwrap().is_active);
}

#[test]
fn bindings_are_answered() {
    let mut config = ConfigManager::new(None, None);
    config.save_binding(binding("b1", "AF88:6688"));
    let all = get_all_bindings(&config);
    assert!(all.success);
    assert_eq!(all.data.unwrap().len(), 1);
    let one = get_binding(&config, "AF88:6688");
    assert!(one.success);
    assert_eq!(one.data.unwrap().unwrap().id, "b1");
    let none = get_binding(&config, "0000:0000");
    assert!(none.success);
    assert_eq!(none.data.map(|b| b.is_none()), Some(true));
    assert_eq!(none.error, None);
}

#[test]
fn saved_binding_marks_its_device_and_is_logged() {
    let mut hid = HidManager::new();
    let mut config = ConfigManager::new(None, None);
    let saved = config.save_binding(binding("b1", "AF88:6688"));
    let r = binding_saved(&mut config, &mut hid, saved, Ok(()));
    assert!(r.success);
    assert_eq!(r.data.unwrap().id, "b1");
    assert_eq!(
        lines(config.logs()),
        vec![line(LogEntryLevel::Success, "Configuration saved for AF88:6688", "Config")]
    );
    let devices = hid.list_devices(&vec![info(0xAF88, 0x6688)]);
    assert_eq!(devices[0].status, DeviceStatus::Configured);
}

#[test]
fn saved_binding_in_lower_case_marks_the_device() {
    let mut hid = HidManager::new();
    let mut config = ConfigManager::new(None, None);
    let saved = config.save_binding(binding("b1", "af88:6688"));
    let r = binding_saved(&mut config, &mut hid, saved, Ok(()));
    assert!(r.success);
    let devices = hid.list_devices(&vec![info(0xAF88, 0x6688)]);
    assert_eq!(devices[0].status, DeviceStatus::Configured);
    assert_eq!(get_binding(&config, "AF88:6688").data.unwrap().unwrap().id, "b1");
    delete_binding(&mut config, &mut hid, "b1");
    let devices = hid.list_devices(&vec![info(0xAF88, 0x6688)]);
    assert_eq!(devices[0].status, DeviceStatus::Connected);
}

#[test]
fn binding_that_could_not_be_written_marks_nothing() {
    let mut hid = HidManager::new();
    let mut config = ConfigManager::new(None, None);
    let saved = config.save_binding(binding("b1", "AF88:6688"));
    let r = binding_saved(&mut config, &mut hid, saved, Err("IO error: disk full".to_string()));
    assert!(!r.success);
    assert!(r.data.is_none());
    assert_eq!(r.error.as_deref(), Some("IO error: disk full"));
    assert!(config.logs().is_empty());
    assert_eq!(config.get_all_bindings().len(), 1);
    let devices = hid.list_devices(&vec![info(0xAF88, 0x6688)]);
    assert_eq!(devices[0].status, DeviceStatus::Connected);
}

#[test]
fn deleted_binding_unmarks_its_device() {
    let mut hid = HidManager::new();
    let mut config = ConfigManager::new(None, None);
    for (id, device) in [("b1", "AF88:6688"), ("b2", "046D:C534")] {
        let saved = config.save_binding(binding(id, device));
        binding_saved(&mut config, &mut hid, saved, Ok(()));
    }
    delete_binding(&mut config, &mut hid, "b1");
    assert_eq!(config.get_all_bindings().len(), 1);
    assert!(config.get_binding("AF88:6688").is_none());
    let devices = hid.list_devices(&vec![info(0xAF88, 0x6688), info(0x046D, 0xC534)]);
    assert_eq!(devices[0].status, DeviceStatus::Connected);
    assert_eq!(devices[1].status, DeviceStatus::Configured);
    let logged = config.logs().len();
    let r = binding_deleted(&mut config, Ok(()));
    assert!(r.success);
    assert_eq!(config.logs().len(), logged + 1);
    assert_eq!(lines(config.logs()).last().unwrap(), &line(LogEntryLevel::Info, "Configuration deleted", "Config"));
}

#[test]
fn deleting_an_unknown_binding_changes_nothing() {
    let mut hid = HidManager::new();
    let mut config = ConfigManager::new(None, None);
    let saved = config.save_binding(binding("b1", "AF88:6688"));
    binding_saved(&mut config, &mut hid, saved, Ok(()));
    delete_binding(&mut config, &mut hid, "b9");
    assert_eq!(config.get_all_bindings().len(), 1);
    let devices = hid.list_devices(&vec![info(0xAF88, 0x6688)]);
    assert_eq!(devices[0].status, DeviceStatus::Configured);
    let r = binding_deleted(&mut config, Err("JSON error: x".to_string()));
    assert!(!r.success);
    assert_eq!(r.error.as_deref(), Some("JSON error: x"));
    assert_eq!(config.logs().len(), 1);
}

#[test]
fn settings_are_answered_and_saved() {
    let mut config = ConfigManager::new(None, None);
    assert_eq!(get_settings(&config).data, Some(AppSettings::default()));
    let new = AppSettings { theme: Theme::Dark, max_log_entries: 5, ..AppSettings::default() };
    let saved = config.save_settings(new);
    let r = settings_saved(&mut config, saved, Ok(()));
    assert!(r.success);
    assert_eq!(r.data, Some(new));
    assert_eq!(lines(config.logs()), vec![line(LogEntryLevel::Success, "Settings saved", "System")]);
    let r = settings_saved(&mut config, saved, Err("IO error: x".to_string()));
    assert!(!r.success);
    assert_eq!(r.data, None);
    assert_eq!(r.error.as_deref(), Some("IO error: x"));
    assert_eq!(config.logs().len(), 1);
    assert_eq!(get_settings(&config).data, Some(new));
}

#[test]
fn test_goes_through_the_shell_on_windows() {
    for kind in [ActionType::LaunchApp, ActionType::RunScript, ActionType::SystemCommand] {
        let a = action(kind, "C:\\tools\\run.exe", "\"a b\" c");
        let (start, notes) = plan_test(&a, Platform::Windows);
        assert_eq!(spawn(&start), spawned("cmd", &["/C", "C:\\tools\\run.exe", "a b", "c"]));
        assert_eq!(notes.len(), 1);
        assert_eq!(notes[0].message, "Testing action: C:\\tools\\run.exe \"a b\" c");
        assert_eq!(notes[0].source.as_deref(), Some("Test"));
        assert_eq!(notes[0].level, LogEntryLevel::Info);
    }
}

#[test]
fn test_starts_applications_and_scripts_directly_elsewhere() {
    for kind in [ActionType::LaunchApp, ActionType::RunScript] {
        let a = action(kind, "/usr/bin/echo", "\"a b\" c");
        let (start, _) = plan_test(&a, Platform::Other);
        assert_eq!(spawn(&start), spawned("/usr/bin/echo", &["a b", "c"]));
    }
    let a = action(ActionType::SystemCommand, "echo", "\"a b\" c");
    let (start, _) = plan_test(&a, Platform::Other);
    assert_eq!(spawn(&start), spawned("sh", &["-c", "echo \"a b\" c"]));
}

#[test]
fn test_of_a_hotkey() {
    let a = action(ActionType::Hotkey, "Ctrl+Alt+Del", "");
    let mut config = ConfigManager::new(None, None);
    match test_action(&mut config, &a, Platform::Windows) {
        TestStart::Run(Effect::SendKeys(batch)) => assert_eq!(batch.len(), 6),
        other => panic!("unexpected: {:?}", other),
    }
    assert_eq!(lines(config.logs()), vec![line(LogEntryLevel::Info, "Testing action: Ctrl+Alt+Del ", "Test")]);
    match test_action(&mut config, &a, Platform::Other) {
        TestStart::Refused(reason) => assert_eq!(reason, "Hotkey simulation only supported on Windows"),
        other => panic!("unexpected: {:?}", other),
    }
    assert_eq!(config.logs().len(), 2);
    let bad = action(ActionType::Hotkey, "Ctrl+Nope", "");
    match test_action(&mut config, &bad, Platform::Windows) {
        TestStart::Refused(reason) => assert_eq!(reason, "Unknown key: Nope"),
        other => panic!("unexpected: {:?}", other),
    }
    assert_eq!(
        lines(config.logs())[3],
        line(LogEntryLevel::Error, "Hotkey failed: Unknown key: Nope", "Test")
    );
}

#[test]
fn test_ends_by_what_came_of_the_effect() {
    let mut config = ConfigManager::new(None, None);
    let launch = action(ActionType::LaunchApp, "app", "");
    let hotkey = action(ActionType::Hotkey, "Ctrl+V", "");
    assert!(action_tested(&mut config, &launch, Ok(())).success);
    let r = action_tested(&mut config, &launch, Err("not found".to_string()));
    assert!(!r.success);
    assert_eq!(r.error.as_deref(), Some("not found"));
    assert!(action_tested(&mut config, &hotkey, Ok(())).success);
    let r = action_tested(&mut config, &hotkey, Err("SendInput failed: sent 0 of 4 inputs".to_string()));
    assert_eq!(r.error.as_deref(), Some("SendInput failed: sent 0 of 4 inputs"));
    assert_eq!(
        lines(config.logs()),
        vec![
            line(LogEntryLevel::Success, "Action executed successfully", "Test"),
            line(LogEntryLevel::Error, "Action failed: not found", "Test"),
            line(LogEntryLevel::Success, "Hotkey executed: Ctrl+V", "Test"),
            line(LogEntryLevel::Error, "Hotkey failed: SendInput failed: sent 0 of 4 inputs", "Test"),
        ]
    );
}

#[test]
fn log_is_answered_and_cleared() {
    let settings = AppSettings { max_log_entries: 3, ..AppSettings::default() };
    let mut config = ConfigManager::new(Some(ConfigData { bindings: Vec::new(), settings }), None);
    for m in ["a", "b", "c", "d"] {
        config.add_log(LogEntryLevel::Info, m.to_string(), None);
    }
    let r = get_logs(&config, Some(2));
    assert!(r.success);
    let messages: Vec<String> = r.data.unwrap().iter().map(|e| e.message.clone()).collect();
    assert_eq!(messages, vec!["d", "c"]);
    assert_eq!(get_logs(&config, None).data.unwrap().len(), 3);
    config.clear_logs();
    assert!(logs_cleared(Ok(())).success);
    let r = logs_cleared(Err("IO error: x".to_string()));
    assert!(!r.success);
    assert_eq!(r.error.as_deref(), Some("IO error: x"));
    assert!(get_logs(&config, None).data.unwrap().is_empty());
}
