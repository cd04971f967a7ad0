use usb_configurator::classifier::{DeviceEvent, EventOrigin, PressState, TriggeredEvent};
use usb_configurator::config::{ConfigData, ConfigManager};
use usb_configurator::hotkey::{HotkeyError, KeyInput, Platform};
use usb_configurator::identity::{parse_from_os_device_name, DeviceIdentity};
use usb_configurator::listener::{
    add_notes, conclude, dispatch, plan_action, shell_command, BackgroundListener,
    joined, Decision, DispatchOutcome, Effect, LogNote,
};
use usb_configurator::types::{
    ActionConfig, ActionType, AppSettings, DeviceBinding, LogEntry, LogEntryLevel, TriggerType,
};

fn action(action_type: ActionType, path: &str, arguments: &str) -> ActionConfig {
    ActionConfig {
        action_type,
        executable_path: path.to_string(),
        arguments: arguments.to_string(),
        working_directory: None,
        run_as_admin: None,
    }
}

fn binding(device_id: &str, trigger: TriggerType, action: ActionConfig) -> DeviceBinding {
    DeviceBinding::stamped(
        "b".to_string(),
        "t".to_string(),
        device_id.to_string(),
        device_id[..4].to_string(),
        device_id[5..].to_string(),
        trigger,
        action,
    )
}

fn store(bindings: Vec<DeviceBinding>) -> ConfigManager {
    ConfigManager::new(Some(ConfigData { bindings, settings: AppSettings::default() }), None)
}

fn press(origin: EventOrigin, at: u64) -> DeviceEvent {
    DeviceEvent { identity: DeviceIdentity::new(0xAF88, 0x6688), origin, observed_at: at }
}

fn lines(logs: &[LogEntry]) -> Vec<(LogEntryLevel, String, Option<String>)> {
    logs.iter().rev().map(|e| (e.level, e.message.clone(), e.source.clone())).collect()
}

fn line(level: LogEntryLevel, message: &str, source: &str) -> (LogEntryLevel, String, Option<String>) {
    (level, message.to_string(), Some(source.to_string()))
}

fn notes(notes: &[LogNote]) -> Vec<(LogEntryLevel, String, Option<String>)> {
    notes.iter().map(|n| (n.level, n.message.clone(), n.source.clone())).collect()
}

fn spawn(effect: &Effect) -> (String, Vec<String>, Option<String>) {
    match effect {
        Effect::Spawn(r) => {
            assert!(!r.elevated);
            (r.program.clone(), r.args.clone(), r.working_dir.clone())
        }
        other => panic!("unexpected: {:?}", other),
    }
}

fn spawned(program: &str, args: &[&str], dir: Option<&str>) -> (String, Vec<String>, Option<String>) {
    (program.to_string(), args.iter().map(|a| a.to_string()).collect(), dir.map(|d| d.to_string()))
}

#[test]
fn press_of_a_device_without_a_binding_is_noted_as_a_warning() {
    let path = "\\\\?\\HID#VID_046D&PID_C534&MI_01#7&0";
    let identity = parse_from_os_device_name(path.to_string()).unwrap();
    let event = DeviceEvent { identity, origin: EventOrigin::RawInput, observed_at: 10 };
    assert_eq!(event.identity.canonical_string(), "046D:C534");
    let mut listener = BackgroundListener::new(Platform::Windows);
    let mut config = store(Vec::new());
    let handled = listener.on_press(event, &mut config).unwrap();
    assert_eq!(handled.event.trigger, TriggerType::SinglePress);
    assert_eq!(handled.event.observed_at, 10);
    assert!(matches!(handled.decision, Decision::Settled(DispatchOutcome::NoMatch)));
    assert_eq!(
        lines(config.logs()),
        vec![
            line(LogEntryLevel::Info, "SinglePress on device 046D:C534", "046D:C534"),
            line(LogEntryLevel::Warn, "No binding configured for device 046D:C534", "046D:C534"),
        ]
    );
}

#[test]
fn double_press_binding_fires_on_the_second_press_only() {
    let launch = action(ActionType::LaunchApp, "/usr/bin/echo", "hi");
    let mut config = store(vec![binding("AF88:6688", TriggerType::DoublePress, launch)]);
    let mut listener = BackgroundListener::new(Platform::Other);
    let first = listener.on_press(press(EventOrigin::RawInput, 1_000), &mut config).unwrap();
    assert_eq!(first.event.trigger, TriggerType::SinglePress);
    assert!(matches!(first.decision, Decision::Settled(DispatchOutcome::TriggerMismatch)));
    let second = listener.on_press(press(EventOrigin::RawInput, 1_120), &mut config).unwrap();
    assert_eq!(second.event.trigger, TriggerType::DoublePress);
    let (action, effect) = match second.decision {
        Decision::Run { action, effect } => (action, effect),
        other => panic!("unexpected: {:?}", other),
    };
    assert_eq!(spawn(&effect), spawned("/usr/bin/echo", &["hi"], None));
    let outcome = listener.on_result(&second.event, &action, Ok(()), &mut config);
    assert!(matches!(outcome, DispatchOutcome::Executed));
    assert_eq!(
        lines(config.logs()),
        vec![
            line(LogEntryLevel::Info, "SinglePress on device AF88:6688", "AF88:6688"),
            line(LogEntryLevel::Info, "DoublePress on device AF88:6688", "AF88:6688"),
            line(LogEntryLevel::Info, "Executing (DoublePress): Launch App: /usr/bin/echo", "AF88:6688"),
            line(LogEntryLevel::Success, "Action executed: /usr/bin/echo", "AF88:6688"),
        ]
    );
    let third = listener.on_press(press(EventOrigin::RawInput, 1_300), &mut config).unwrap();
    assert_eq!(third.event.trigger, TriggerType::SinglePress);
    assert!(matches!(third.decision, Decision::Settled(DispatchOutcome::TriggerMismatch)));
}

#[test]
fn failed_double_press_action_does_not_start_the_count_over() {
    let launch = action(ActionType::LaunchApp, "/nowhere", "");
    let mut config = store(vec![binding("AF88:6688", TriggerType::DoublePress, launch)]);
    let mut listener = BackgroundListener::new(Platform::Other);
    listener.on_press(press(EventOrigin::RawInput, 1_000), &mut config).unwrap();
    let second = listener.on_press(press(EventOrigin::RawInput, 1_120), &mut config).unwrap();
    let action = match second.decision {
        Decision::Run { action, .. } => action,
        other => panic!("unexpected: {:?}", other),
    };
    let outcome = listener.on_result(&second.event, &action, Err("No such file".to_string()), &mut config);
    match outcome {
        DispatchOutcome::Failed(reason) => assert_eq!(reason, "No such file"),
        other => panic!("unexpected: {:?}", other),
    }
    assert_eq!(
        lines(config.logs()).last().unwrap(),
        &line(LogEntryLevel::Error, "Action failed: No such file", "AF88:6688")
    );
    let third = listener.on_press(press(EventOrigin::RawInput, 1_300), &mut config).unwrap();
    assert_eq!(third.event.trigger, TriggerType::DoublePress);
}

#[test]
fn single_press_hotkey_fires_on_each_of_two_slow_presses() {
    let paste = action(ActionType::Hotkey, "Ctrl+Shift+V", "");
    let mut config = store(vec![binding("AF88:6688", TriggerType::SinglePress, paste)]);
    let mut listener = BackgroundListener::new(Platform::Windows);
    for at in [0u64, 800] {
        let handled = listener.on_press(press(EventOrigin::RawInput, at), &mut config).unwrap();
        assert_eq!(handled.event.trigger, TriggerType::SinglePress);
        let (action, effect) = match handled.decision {
            Decision::Run { action, effect } => (action, effect),
            other => panic!("unexpected: {:?}", other),
        };
        let batch = match effect {
            Effect::SendKeys(batch) => batch,
            other => panic!("unexpected: {:?}", other),
        };
        assert_eq!(batch.len(), 6);
        assert_eq!(batch.iter().filter(|k| !k.key_up).count(), 3);
        assert_eq!(batch[0], KeyInput { virtual_key: 0x11, key_up: false });
        assert_eq!(batch[5], KeyInput { virtual_key: 0x11, key_up: true });
        let outcome = listener.on_result(&handled.event, &action, Ok(()), &mut config);
        assert!(matches!(outcome, DispatchOutcome::Executed));
    }
    assert_eq!(
        lines(config.logs()),
        vec![
            line(LogEntryLevel::Info, "SinglePress on device AF88:6688", "AF88:6688"),
            line(LogEntryLevel::Info, "Executing (SinglePress): Hotkey: Ctrl+Shift+V", "AF88:6688"),
            line(LogEntryLevel::Success, "Hotkey executed: Ctrl+Shift+V", "AF88:6688"),
            line(LogEntryLevel::Info, "SinglePress on device AF88:6688", "AF88:6688"),
            line(LogEntryLevel::Info, "Executing (SinglePress): Hotkey: Ctrl+Shift+V", "AF88:6688"),
            line(LogEntryLevel::Success, "Hotkey executed: Ctrl+Shift+V", "AF88:6688"),
        ]
    );
}

#[test]
fn empty_chord_is_logged_as_an_error_and_nothing_is_synthesised() {
    let broken = action(ActionType::Hotkey, "", "");
    let mut config = store(vec![binding("AF88:6688", TriggerType::SinglePress, broken)]);
    let mut listener = BackgroundListener::new(Platform::Windows);
    let handled = listener.on_press(press(EventOrigin::RawInput, 5), &mut config).unwrap();
    match handled.decision {
        Decision::Settled(DispatchOutcome::Failed(reason)) => assert_eq!(reason, "Unknown key: "),
        other => panic!("unexpected: {:?}", other),
    }
    assert_eq!(
        lines(config.logs()),
        vec![
            line(LogEntryLevel::Info, "SinglePress on device AF88:6688", "AF88:6688"),
            line(LogEntryLevel::Info, "Executing (SinglePress): Hotkey: ", "AF88:6688"),
            line(LogEntryLevel::Error, "Hotkey failed: Unknown key: ", "AF88:6688"),
        ]
    );
}

#[test]
fn hotkey_off_windows_fails_as_unsupported() {
    let paste = action(ActionType::Hotkey, "Ctrl+V", "");
    let b = binding("AF88:6688", TriggerType::SinglePress, paste);
    let (decision, log) = dispatch(TriggerType::SinglePress, "AF88:6688", Some(&b), Platform::Other);
    match decision {
        Decision::Settled(DispatchOutcome::Failed(reason)) => {
            assert_eq!(reason, "Hotkey simulation is only supported on Windows")
        }
        other => panic!("unexpected: {:?}", other),
    }
    assert_eq!(
        notes(&log)[2],
        line(LogEntryLevel::Error, "Hotkey failed: Hotkey simulation is only supported on Windows", "AF88:6688")
    );
}

#[test]
fn same_press_seen_by_both_sources_is_one_single_press() {
    let mut config = store(Vec::new());
    let mut listener = BackgroundListener::new(Platform::Windows);
    let first = listener.on_press(press(EventOrigin::RawInput, 2_000), &mut config);
    assert_eq!(first.unwrap().event.trigger, TriggerType::SinglePress);
    let logged = config.logs().len();
    let second = listener.on_press(press(EventOrigin::HidPoll, 2_010), &mut config);
    assert!(second.is_none());
    assert_eq!(config.logs().len(), logged);
}

#[test]
fn binding_stored_in_lower_case_fires_for_its_device() {
    let launch = action(ActionType::LaunchApp, "app", "");
    let mut config = store(vec![binding("af88:6688", TriggerType::SinglePress, launch)]);
    let mut listener = BackgroundListener::new(Platform::Other);
    let handled = listener.on_press(press(EventOrigin::RawInput, 1), &mut config).unwrap();
    assert!(matches!(handled.decision, Decision::Run { .. }));
    assert_eq!(
        lines(config.logs()),
        vec![
            line(LogEntryLevel::Info, "SinglePress on device AF88:6688", "AF88:6688"),
            line(LogEntryLevel::Info, "Executing (SinglePress): Launch App: app", "AF88:6688"),
        ]
    );
}

#[test]
fn disabled_binding_is_noted_as_a_warning() {
    let mut b = binding("AF88:6688", TriggerType::SinglePress, action(ActionType::LaunchApp, "x", ""));
    b.enabled = false;
    let (decision, log) = dispatch(TriggerType::SinglePress, "AF88:6688", Some(&b), Platform::Windows);
    assert!(matches!(decision, Decision::Settled(DispatchOutcome::Disabled)));
    assert_eq!(
        notes(&log),
        vec![
            line(LogEntryLevel::Info, "SinglePress on device AF88:6688", "AF88:6688"),
            line(LogEntryLevel::Warn, "Binding disabled for device AF88:6688", "AF88:6688"),
        ]
    );
    let (decision, _) = dispatch(TriggerType::DoublePress, "AF88:6688", Some(&b), Platform::Windows);
    assert!(matches!(decision, Decision::Settled(DispatchOutcome::Disabled)));
}

#[test]
fn other_kind_of_press_ends_the_dispatch_silently() {
    let b = binding("AF88:6688", TriggerType::LongPress, action(ActionType::LaunchApp, "x", ""));
    for trigger in [TriggerType::SinglePress, TriggerType::DoublePress] {
        let (decision, log) = dispatch(trigger, "AF88:6688", Some(&b), Platform::Windows);
        assert!(matches!(decision, Decision::Settled(DispatchOutcome::TriggerMismatch)));
        assert_eq!(log.len(), 1);
        assert_eq!(log[0].level, LogEntryLevel::Info);
    }
    let (decision, log) = dispatch(TriggerType::LongPress, "AF88:6688", Some(&b), Platform::Windows);
    assert!(matches!(decision, Decision::Run { .. }));
    assert_eq!(
        notes(&log)[1],
        line(LogEntryLevel::Info, "Executing (LongPress): Launch App: x", "AF88:6688")
    );
}

#[test]
fn missing_binding_is_no_match() {
    let (decision, log) = dispatch(TriggerType::DoublePress, "0001:0002", None, Platform::Other);
    assert!(matches!(decision, Decision::Settled(DispatchOutcome::NoMatch)));
    assert_eq!(
        notes(&log),
        vec![
            line(LogEntryLevel::Info, "DoublePress on device 0001:0002", "0001:0002"),
            line(LogEntryLevel::Warn, "No binding configured for device 0001:0002", "0001:0002"),
        ]
    );
}

#[test]
fn application_is_started_directly_in_its_working_directory() {
    let mut a = action(ActionType::LaunchApp, "C:\\Program Files\\App\\app.exe", "\"a b\" --flag");
    a.working_directory = Some("C:\\Work".to_string());
    a.run_as_admin = Some(false);
    for platform in [Platform::Windows, Platform::Other] {
        let effect = plan_action(&a, platform).unwrap();
        assert_eq!(
            spawn(&effect),
            spawned("C:\\Program Files\\App\\app.exe", &["a b", "--flag"], Some("C:\\Work"))
        );
    }
    let bare = action(ActionType::LaunchApp, "app", "");
    assert_eq!(spawn(&plan_action(&bare, Platform::Windows).unwrap()), spawned("app", &[], None));
}

#[test]
fn elevation_is_asked_for_only_where_the_action_says_so() {
    let mut a = action(ActionType::LaunchApp, "app", "");
    for (wanted, expected) in [(None, false), (Some(false), false), (Some(true), true)] {
        a.run_as_admin = wanted;
        match plan_action(&a, Platform::Windows).unwrap() {
            Effect::Spawn(r) => assert_eq!(r.elevated, expected),
            other => panic!("unexpected: {:?}", other),
        }
    }
    a.action_type = ActionType::RunScript;
    a.run_as_admin = Some(true);
    match plan_action(&a, Platform::Windows).unwrap() {
        Effect::Spawn(r) => assert!(!r.elevated),
        other => panic!("unexpected: {:?}", other),
    }
}

#[test]
fn script_goes_through_the_shell_with_its_path_in_quotes() {
    let a = action(ActionType::RunScript, "C:\\my scripts\\run.bat", "one \"two three\"");
    assert_eq!(
        spawn(&plan_action(&a, Platform::Windows).unwrap()),
        spawned("cmd", &["/C", "\"C:\\my scripts\\run.bat\"", "one", "two three"], None)
    );
    assert_eq!(
        spawn(&plan_action(&a, Platform::Other).unwrap()),
        spawned("sh", &["-c", "\"C:\\my scripts\\run.bat\" one \"two three\""], None)
    );
}

#[test]
fn system_command_goes_through_the_shell() {
    let mut a = action(ActionType::SystemCommand, "shutdown", "/s /t 0");
    a.working_directory = Some("ignored".to_string());
    assert_eq!(
        spawn(&plan_action(&a, Platform::Windows).unwrap()),
        spawned("cmd", &["/C", "shutdown", "/s", "/t", "0"], None)
    );
    assert_eq!(
        spawn(&plan_action(&a, Platform::Other).unwrap()),
        spawned("sh", &["-c", "shutdown /s /t 0"], None)
    );
    let bare = action(ActionType::SystemCommand, "ls", "");
    assert_eq!(spawn(&plan_action(&bare, Platform::Other).unwrap()), spawned("sh", &["-c", "ls "], None));
    assert_eq!(spawn(&plan_action(&bare, Platform::Windows).unwrap()), spawned("cmd", &["/C", "ls"], None));
}

#[test]
fn shell_command_by_platform() {
    let r = shell_command(Platform::Windows, "x".to_string(), "");
    assert!(!r.elevated);
    assert_eq!((r.program.as_str(), r.args, r.working_dir), ("cmd", vec!["/C".to_string(), "x".to_string()], None));
    let r = shell_command(Platform::Other, "x".to_string(), "y z");
    assert!(!r.elevated);
    assert_eq!((r.program.as_str(), r.args, r.working_dir), ("sh", vec!["-c".to_string(), "x y z".to_string()], None));
}

#[test]
fn hotkey_action_is_planned_as_a_batch() {
    let a = action(ActionType::Hotkey, "Alt+F4", "ignored");
    match plan_action(&a, Platform::Windows).unwrap() {
        Effect::SendKeys(batch) => assert_eq!(
            batch,
            vec![
                KeyInput { virtual_key: 0x12, key_up: false },
                KeyInput { virtual_key: 0x73, key_up: false },
                KeyInput { virtual_key: 0x73, key_up: true },
                KeyInput { virtual_key: 0x12, key_up: true },
            ]
        ),
        other => panic!("unexpected: {:?}", other),
    }
    assert!(matches!(plan_action(&a, Platform::Other), Err(HotkeyError::Unsupported)));
    let bad = action(ActionType::Hotkey, "Alt+Nope", "");
    assert!(matches!(plan_action(&bad, Platform::Windows), Err(HotkeyError::InvalidChord(_))));
}

#[test]
fn dispatch_ends_by_what_came_of_the_effect() {
    let launch = action(ActionType::LaunchApp, "app", "");
    let hotkey = action(ActionType::Hotkey, "Ctrl+V", "");
    let (outcome, note, reset) = conclude(TriggerType::SinglePress, "0001:0002", &launch, Ok(()));
    assert!(matches!(outcome, DispatchOutcome::Executed));
    assert_eq!(notes(&[note]), vec![line(LogEntryLevel::Success, "Action executed: app", "0001:0002")]);
    assert!(!reset);
    let (_, note, reset) = conclude(TriggerType::DoublePress, "0001:0002", &hotkey, Ok(()));
    assert_eq!(notes(&[note]), vec![line(LogEntryLevel::Success, "Hotkey executed: Ctrl+V", "0001:0002")]);
    assert!(reset);
    let (outcome, note, reset) =
        conclude(TriggerType::DoublePress, "0001:0002", &launch, Err("denied".to_string()));
    assert!(matches!(outcome, DispatchOutcome::Failed(ref r) if r == "denied"));
    assert_eq!(notes(&[note]), vec![line(LogEntryLevel::Error, "Action failed: denied", "0001:0002")]);
    assert!(!reset);
    let (_, note, _) = conclude(
        TriggerType::SinglePress,
        "0001:0002",
        &hotkey,
        Err("SendInput failed: sent 2 of 4 inputs".to_string()),
    );
    assert_eq!(
        notes(&[note]),
        vec![line(LogEntryLevel::Error, "Hotkey failed: SendInput failed: sent 2 of 4 inputs", "0001:0002")]
    );
}

#[test]
fn result_for_a_single_press_leaves_the_count() {
    let launch = action(ActionType::LaunchApp, "app", "");
    let mut config = store(vec![binding("AF88:6688", TriggerType::SinglePress, launch.clone())]);
    let mut listener = BackgroundListener::new(Platform::Other);
    let first = listener.on_press(press(EventOrigin::RawInput, 0), &mut config).unwrap();
    listener.on_result(&first.event, &launch, Ok(()), &mut config);
    let second = listener.on_press(press(EventOrigin::RawInput, 100), &mut config).unwrap();
    assert_eq!(second.event.trigger, TriggerType::DoublePress);
    assert!(matches!(second.decision, Decision::Settled(DispatchOutcome::TriggerMismatch)));
}

#[test]
fn notes_are_added_in_order_and_the_log_is_cut() {
    let settings = AppSettings { max_log_entries: 2, ..AppSettings::default() };
    let mut config = ConfigManager::new(Some(ConfigData { bindings: Vec::new(), settings }), None);
    let make = |m: &str| LogNote { level: LogEntryLevel::Debug, message: m.to_string(), source: None };
    add_notes(&mut config, vec![make("one"), make("two"), make("three")]);
    let messages: Vec<&str> = config.logs().iter().map(|e| e.message.as_str()).collect();
    assert_eq!(messages, vec!["three", "two"]);
    add_notes(&mut config, Vec::new());
    assert_eq!(config.logs().len(), 2);
}

#[test]
fn strings_are_joined() {
    assert_eq!(joined("ab", "cd"), "abcd");
    assert_eq!(joined("", ""), "");
    assert_eq!(joined("\u{e9}", "\u{1F600}"), "\u{e9}\u{1F600}");
}

#[test]
fn classified_event_for_a_result_may_come_from_elsewhere() {
    let mut config = store(Vec::new());
    let mut listener = BackgroundListener::new(Platform::Other);
    let event = TriggeredEvent {
        identity: DeviceIdentity::new(9, 9),
        trigger: TriggerType::DoublePress,
        observed_at: 1,
    };
    let outcome = listener.on_result(&event, &action(ActionType::LaunchApp, "a", ""), Ok(()), &mut config);
    assert!(matches!(outcome, DispatchOutcome::Executed));
    let next = listener
        .on_press(DeviceEvent { identity: DeviceIdentity::new(9, 9), origin: EventOrigin::HidPoll, observed_at: 2 }, &mut config)
        .unwrap();
    assert_eq!(next.event.trigger, TriggerType::SinglePress);
    let _ = PressState { last_press_at: 0, consecutive_count: 0 };
}
