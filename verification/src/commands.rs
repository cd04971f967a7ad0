//! The commands of the front-end, as far as they decide anything: what each one changes
//! in the store and in the device list, what it writes to the log, and what it answers.
//!
//! Enumerating devices, writing the files and carrying out an action are the caller's
//! part. Where a command waits for one of these, it comes in two halves, and the caller
//! passes what came of its part to the second half.
use vstd::prelude::*;
use vstd::string::*;
use crate::arguments::{parse_arguments, parse_arguments_spec};
use crate::config::{binding_for_device, binding_with_id, bindings_without, ConfigManager};
use crate::hid::{
    after_configured, after_unconfigured, canonical_ids, device_info_spec, gone,
    hid_error_message, listed, seen, DeviceRefreshResult, HidError, HidErrorView, HidManager,
    RawDeviceInfo,
};
use crate::hotkey::{error_message, execute_hotkey, execute_hotkey_spec, Platform};
use crate::listener::{
    add_notes, joined, logs_follow, make_note, note, shell_command, shell_request, Effect,
    EffectView, LogNote, LogNoteView, SpawnRequest, SpawnRequestView,
};
use crate::text::{decimal, push_decimal, strings_view};
use crate::types::{
    ActionConfig, ActionConfigView, ActionType, AppSettings, DeviceBinding, DeviceBindingView,
    HidDevice, IpcResult, LogEntry, LogEntryLevel, MonitoringState, MonitoringStateView,
};

verus! {

/// Whether an answer without data reports success.
pub open spec fn is_done(r: IpcResult<()>) -> bool {
    r.success && r.data == Some(()) && r.error is None
}

/// Whether an answer reports the failure `message`.
pub open spec fn is_failure<T>(r: IpcResult<T>, message: Seq<char>) -> bool {
    !r.success && r.data is None && r.error.deep_view() == Some(message)
}

/// The message of a failure to initialise the HID subsystem.
pub open spec fn init_failure(detail: Seq<char>) -> Seq<char> {
    hid_error_message(HidErrorView::InitError(detail))
}

/// Answers the request for the device list. `enumeration` holds the endpoints, or the
/// reason why they could not be enumerated.
pub fn list_devices(hid: &mut HidManager, enumeration: Result<Vec<RawDeviceInfo>, String>) -> (r:
    IpcResult<Vec<HidDevice>>)
    ensures
        match enumeration {
            Ok(infos) => {
                &&& r.well_formed() && r.success
                &&& r.data->0.deep_view() == listed(infos.deep_view(), old(hid)@.configured)
                &&& final(hid)@.previous == seen(infos.deep_view())
                &&& final(hid)@.configured == old(hid)@.configured
                &&& final(hid)@.monitoring == old(hid)@.monitoring
            },
            Err(detail) => is_failure(r, init_failure(detail@)) && final(hid)@ == old(hid)@,
        },
{
    match enumeration {
        Ok(infos) => IpcResult::ok(hid.list_devices(&infos)),
        Err(detail) => IpcResult::err(HidError::InitError(detail).message()),
    }
}

/// The note on how many devices a refresh found.
pub open spec fn found_note(count: nat) -> LogNoteView {
    note(LogEntryLevel::Info, "Found "@ + decimal(count) + " HID devices"@, "HID"@)
}

/// The note that a device has gone.
pub open spec fn disconnected_note(id: Seq<char>) -> LogNoteView {
    note(LogEntryLevel::Warn, "Device disconnected: "@ + id, id)
}

/// The notes of a refresh: how many devices were found, and one for each device that
/// has gone, in order.
pub open spec fn refresh_notes_spec(found: nat, disconnected: Seq<Seq<char>>) -> Seq<LogNoteView> {
    seq![found_note(found)] + Seq::new(disconnected.len(), |i: int| disconnected_note(disconnected[i]))
}

/// The notes of a refresh.
pub fn refresh_notes(result: &DeviceRefreshResult) -> (notes: Vec<LogNote>)
    ensures
        notes.deep_view() == refresh_notes_spec(
            result.devices.len() as nat,
            strings_view(result.disconnected_ids@),
        ),
{
    let mut notes: Vec<LogNote> = Vec::new();
    let mut found = "Found ".to_owned();
    push_decimal(&mut found, result.devices.len() as u64);
    found.append(" HID devices");
    notes.push(make_note(LogEntryLevel::Info, found, "HID"));
    let ghost gone_ids = strings_view(result.disconnected_ids@);
    let ghost wanted = refresh_notes_spec(result.devices.len() as nat, gone_ids);
    let mut i: usize = 0;
    assert(notes.deep_view() =~= wanted.take(1));
    while i < result.disconnected_ids.len()
        invariant
            i <= result.disconnected_ids.len(),
            gone_ids == strings_view(result.disconnected_ids@),
            wanted == refresh_notes_spec(result.devices.len() as nat, gone_ids),
            notes.deep_view() == wanted.take(i + 1),
        decreases result.disconnected_ids.len() - i,
    {
        let id = result.disconnected_ids[i].as_str();
        let ghost before = notes.deep_view();
        notes.push(make_note(LogEntryLevel::Warn, joined("Device disconnected: ", id), id));
        assert(notes.deep_view() =~= before.push(disconnected_note(id@)));
        assert(wanted[i + 1] == disconnected_note(gone_ids[i as int]));
        assert(notes.deep_view() =~= wanted.take(i + 2));
        i += 1;
    }
    assert(wanted.take(result.disconnected_ids.len() + 1) =~= wanted);
    notes
}

/// What a refresh hands back: the answer for the front-end, and the devices that have
/// gone, for each of which the front-end is to be notified.
pub struct Refreshed {
    pub answer: IpcResult<Vec<HidDevice>>,
    pub disconnected_ids: Vec<String>,
}

/// Refreshes the device list, and writes to the log what was found and what has gone.
/// `enumeration` holds the endpoints, or the reason why they could not be enumerated.
pub fn refresh_devices(
    hid: &mut HidManager,
    config: &mut ConfigManager,
    enumeration: Result<Vec<RawDeviceInfo>, String>,
) -> (r: Refreshed)
    ensures
        final(config)@.bindings == old(config)@.bindings,
        final(config)@.settings == old(config)@.settings,
        match enumeration {
            Ok(infos) => {
                let devices = listed(infos.deep_view(), old(hid)@.configured);
                let disconnected = canonical_ids(
                    gone(old(hid)@.previous, seen(infos.deep_view())),
                );
                &&& r.answer.well_formed() && r.answer.success
                &&& r.answer.data->0.deep_view() == devices
                &&& strings_view(r.disconnected_ids@) == disconnected
                &&& disconnected.no_duplicates()
                &&& final(hid)@.previous == seen(infos.deep_view())
                &&& final(hid)@.configured == old(hid)@.configured
                &&& final(hid)@.monitoring == old(hid)@.monitoring
                &&& logs_follow(
                    old(config)@.logs,
                    final(config)@.logs,
                    refresh_notes_spec(devices.len(), disconnected),
                    old(config)@.settings.max_log_entries,
                )
            },
            Err(detail) => {
                &&& is_failure(r.answer, init_failure(detail@))
                &&& r.disconnected_ids@.len() == 0
                &&& final(hid)@ == old(hid)@
                &&& final(config)@.logs == old(config)@.logs
            },
        },
{
    match enumeration {
        Ok(infos) => {
            let result = hid.refresh_devices_with_disconnections(&infos);
            let notes = refresh_notes(&result);
            add_notes(config, notes);
            Refreshed {
                answer: IpcResult::ok(result.devices),
                disconnected_ids: result.disconnected_ids,
            }
        },
        Err(detail) => Refreshed {
            answer: IpcResult::err(HidError::InitError(detail).message()),
            disconnected_ids: Vec::new(),
        },
    }
}

/// Answers the request for one device, looked up in an enumeration.
pub fn get_device_info(hid: &HidManager, device_id: &str, infos: &Vec<RawDeviceInfo>) -> (r:
    IpcResult<HidDevice>)
    ensures
        r.well_formed(),
        match device_info_spec(infos.deep_view(), hid@.configured, device_id@) {
            Ok(device) => r.success && r.data->0@ == device,
            Err(e) => is_failure(r, hid_error_message(e)),
        },
{
    match hid.get_device_info(device_id, infos) {
        Ok(device) => IpcResult::ok(device),
        Err(e) => IpcResult::err(e.message()),
    }
}

/// The sources that a find-by-press session starts.
#[derive(Debug, Clone, Copy, PartialEq, Eq, Structural)]
pub enum MonitoringPlan {
    /// The raw-input source, run through the parallel monitor.
    RawInput,
    /// The polling source, until the first press, with the given timeout for each read.
    HidPoll { timeout_ms: i32 },
}

/// The longest wait for one read of a find-by-press session, in milliseconds.
pub const FIND_BY_PRESS_TIMEOUT_MS: i32 = 500;

/// The note that a find-by-press session has begun.
pub open spec fn monitoring_started_note() -> LogNoteView {
    note(
        LogEntryLevel::Info,
        "Started 'Find by Press' monitoring - press any button on your device"@,
        "Input"@,
    )
}

/// Opens a find-by-press session: writes the note to the log and says which source is
/// to be started. On Windows that is the raw-input source; elsewhere it is the polling
/// source, and the device list is told that a session runs.
pub fn start_monitoring(config: &mut ConfigManager, hid: &mut HidManager, platform: Platform) -> (r:
    MonitoringPlan)
    ensures
        r == (match platform {
            Platform::Windows => MonitoringPlan::RawInput,
            Platform::Other => MonitoringPlan::HidPoll { timeout_ms: FIND_BY_PRESS_TIMEOUT_MS },
        }),
        final(hid)@.monitoring == (platform == Platform::Other || old(hid)@.monitoring),
        final(hid)@.configured == old(hid)@.configured,
        final(hid)@.previous == old(hid)@.previous,
        final(config)@.bindings == old(config)@.bindings,
        final(config)@.settings == old(config)@.settings,
        logs_follow(
            old(config)@.logs,
            final(config)@.logs,
            seq![monitoring_started_note()],
            old(config)@.settings.max_log_entries,
        ),
{
    let mut notes: Vec<LogNote> = Vec::new();
    notes.push(
        make_note(
            LogEntryLevel::Info,
            "Started 'Find by Press' monitoring - press any button on your device".to_owned(),
            "Input",
        ),
    );
    assert(notes.deep_view() =~= seq![monitoring_started_note()]);
    add_notes(config, notes);
    match platform {
        Platform::Windows => MonitoringPlan::RawInput,
        Platform::Other => {
            let _ = hid.start_monitoring();
            MonitoringPlan::HidPoll { timeout_ms: FIND_BY_PRESS_TIMEOUT_MS }
        },
    }
}

/// The note that a find-by-press session has ended.
pub open spec fn monitoring_stopped_note() -> LogNoteView {
    note(LogEntryLevel::Info, "Stopped monitoring"@, "HID"@)
}

/// Closes the find-by-press session and writes the note to the log.
pub fn stop_monitoring(config: &mut ConfigManager, hid: &mut HidManager) -> (r: IpcResult<()>)
    ensures
        is_done(r),
        !final(hid)@.monitoring,
        final(hid)@.configured == old(hid)@.configured,
        final(hid)@.previous == old(hid)@.previous,
        final(config)@.bindings == old(config)@.bindings,
        final(config)@.settings == old(config)@.settings,
        logs_follow(
            old(config)@.logs,
            final(config)@.logs,
            seq![monitoring_stopped_note()],
            old(config)@.settings.max_log_entries,
        ),
{
    hid.stop_monitoring();
    let mut notes: Vec<LogNote> = Vec::new();
    notes.push(make_note(LogEntryLevel::Info, "Stopped monitoring".to_owned(), "HID"));
    assert(notes.deep_view() =~= seq![monitoring_stopped_note()]);
    add_notes(config, notes);
    IpcResult::ok_empty()
}

/// Answers the request for the state of the find-by-press session.
pub fn get_monitoring_state(hid: &HidManager) -> (r: IpcResult<MonitoringState>)
    ensures
        r.well_formed() && r.success,
        r.data->0@ == (MonitoringStateView { is_active: hid@.monitoring, detected_device: None }),
{
    IpcResult::ok(hid.get_monitoring_state())
}

/// Answers the request for every binding.
pub fn get_all_bindings(config: &ConfigManager) -> (r: IpcResult<Vec<DeviceBinding>>)
    ensures
        r.well_formed() && r.success,
        r.data->0.deep_view() == config@.bindings,
{
    IpcResult::ok(config.get_all_bindings())
}

/// Answers the request for the binding of a device.
pub fn get_binding(config: &ConfigManager, device_id: &str) -> (r: IpcResult<Option<DeviceBinding>>)
    ensures
        r.well_formed() && r.success,
        r.data->0.deep_view() == binding_for_device(config@.bindings, device_id@),
{
    IpcResult::ok(config.get_binding(device_id))
}

/// The note that a binding was saved.
pub open spec fn binding_saved_note(saved: DeviceBindingView) -> LogNoteView {
    note(
        LogEntryLevel::Success,
        "Configuration saved for "@ + saved.vendor_id + ":"@ + saved.product_id,
        "Config"@,
    )
}

/// The second half of saving a binding, after the store took it and the caller tried
/// to write the file. Where the file was written, the device is marked as configured
/// and the note goes to the log. Where it was not, the answer carries the reason, and
/// nothing else changes: the store keeps the binding all the same.
pub fn binding_saved(
    config: &mut ConfigManager,
    hid: &mut HidManager,
    saved: DeviceBinding,
    written: Result<(), String>,
) -> (r: IpcResult<DeviceBinding>)
    ensures
        r.well_formed(),
        final(config)@.bindings == old(config)@.bindings,
        final(config)@.settings == old(config)@.settings,
        final(hid)@.previous == old(hid)@.previous,
        final(hid)@.monitoring == old(hid)@.monitoring,
        match written {
            Ok(()) => {
                &&& r.success && r.data->0@ == saved@
                &&& final(hid)@.configured == after_configured(
                    old(hid)@.configured,
                    saved@.device_id,
                )
                &&& logs_follow(
                    old(config)@.logs,
                    final(config)@.logs,
                    seq![binding_saved_note(saved@)],
                    old(config)@.settings.max_log_entries,
                )
            },
            Err(reason) => {
                &&& is_failure(r, reason@)
                &&& final(hid)@.configured == old(hid)@.configured
                &&& final(config)@.logs == old(config)@.logs
            },
        },
{
    match written {
        Ok(()) => {
            hid.set_device_configured(saved.device_id.as_str());
            let mut message = "Configuration saved for ".to_owned();
            message.append(saved.vendor_id.as_str());
            message.append(":");
            message.append(saved.product_id.as_str());
            let mut notes: Vec<LogNote> = Vec::new();
            notes.push(make_note(LogEntryLevel::Success, message, "Config"));
            assert(notes.deep_view() =~= seq![binding_saved_note(saved@)]);
            add_notes(config, notes);
            IpcResult::ok(saved)
        },
        Err(reason) => IpcResult::err(reason),
    }
}

/// The configured devices after the binding with the identifier `binding_id` is
/// deleted: the device of the first such binding is unmarked.
pub open spec fn configured_after_delete(
    configured: Seq<(u16, u16)>,
    bindings: Seq<DeviceBindingView>,
    binding_id: Seq<char>,
) -> Seq<(u16, u16)> {
    match binding_with_id(bindings, binding_id) {
        Some(b) => after_unconfigured(configured, b.device_id),
        None => configured,
    }
}

/// The first half of deleting a binding: unmarks its device and takes it out of the
/// store. The caller then writes the file.
pub fn delete_binding(config: &mut ConfigManager, hid: &mut HidManager, binding_id: &str)
    ensures
        final(config)@.bindings == bindings_without(old(config)@.bindings, binding_id@),
        final(config)@.settings == old(config)@.settings,
        final(config)@.logs == old(config)@.logs,
        final(hid)@.configured == configured_after_delete(
            old(hid)@.configured,
            old(config)@.bindings,
            binding_id@,
        ),
        final(hid)@.previous == old(hid)@.previous,
        final(hid)@.monitoring == old(hid)@.monitoring,
{
    if let Some(binding) = config.get_binding_by_id(binding_id) {
        hid.set_device_unconfigured(binding.device_id.as_str());
    }
    config.delete_binding(binding_id);
}

/// The note that a binding was deleted.
pub open spec fn binding_deleted_note() -> LogNoteView {
    note(LogEntryLevel::Info, "Configuration deleted"@, "Config"@)
}

/// Answers a command whose change the caller tried to write to the file: where the
/// file was written, the note goes to the log and the answer reports success; where it
/// was not, the answer carries the reason.
fn written_answer(config: &mut ConfigManager, written: Result<(), String>, done: LogNote) -> (r:
    IpcResult<()>)
    ensures
        r.well_formed(),
        final(config)@.bindings == old(config)@.bindings,
        final(config)@.settings == old(config)@.settings,
        match written {
            Ok(()) => is_done(r) && logs_follow(
                old(config)@.logs,
                final(config)@.logs,
                seq![done@],
                old(config)@.settings.max_log_entries,
            ),
            Err(reason) => is_failure(r, reason@) && final(config)@.logs == old(config)@.logs,
        },
{
    match written {
        Ok(()) => {
            let mut notes: Vec<LogNote> = Vec::new();
            let ghost shown = done@;
            notes.push(done);
            assert(notes.deep_view() =~= seq![shown]);
            add_notes(config, notes);
            IpcResult::ok_empty()
        },
        Err(reason) => IpcResult::err(reason),
    }
}

/// The second half of deleting a binding, after the caller tried to write the file.
pub fn binding_deleted(config: &mut ConfigManager, written: Result<(), String>) -> (r: IpcResult<()>)
    ensures
        r.well_formed(),
        final(config)@.bindings == old(config)@.bindings,
        final(config)@.settings == old(config)@.settings,
        match written {
            Ok(()) => is_done(r) && logs_follow(
                old(config)@.logs,
                final(config)@.logs,
                seq![binding_deleted_note()],
                old(config)@.settings.max_log_entries,
            ),
            Err(reason) => is_failure(r, reason@) && final(config)@.logs == old(config)@.logs,
        },
{
    let done = make_note(LogEntryLevel::Info, "Configuration deleted".to_owned(), "Config");
    written_answer(config, written, done)
}

/// Answers the request for the settings.
pub fn get_settings(config: &ConfigManager) -> (r: IpcResult<AppSettings>)
    ensures
        r.well_formed() && r.success,
        r.data == Some(config@.settings),
{
    IpcResult::ok(config.get_settings())
}

/// The note that the settings were saved.
pub open spec fn settings_saved_note() -> LogNoteView {
    note(LogEntryLevel::Success, "Settings saved"@, "System"@)
}

/// The second half of saving the settings, after the store took them and the caller
/// tried to write the file.
pub fn settings_saved(config: &mut ConfigManager, saved: AppSettings, written: Result<(), String>) -> (r:
    IpcResult<AppSettings>)
    ensures
        r.well_formed(),
        final(config)@.bindings == old(config)@.bindings,
        final(config)@.settings == old(config)@.settings,
        match written {
            Ok(()) => r.success && r.data == Some(saved) && logs_follow(
                old(config)@.logs,
                final(config)@.logs,
                seq![settings_saved_note()],
                old(config)@.settings.max_log_entries,
            ),
            Err(reason) => is_failure(r, reason@) && final(config)@.logs == old(config)@.logs,
        },
{
    match written {
        Ok(()) => {
            let mut notes: Vec<LogNote> = Vec::new();
            notes.push(make_note(LogEntryLevel::Success, "Settings saved".to_owned(), "System"));
            assert(notes.deep_view() =~= seq![settings_saved_note()]);
            add_notes(config, notes);
            IpcResult::ok(saved)
        },
        Err(reason) => IpcResult::err(reason),
    }
}

/// The message with which a test of a hotkey is refused where keys cannot be
/// synthesised.
pub open spec fn test_unsupported_message() -> Seq<char> {
    "Hotkey simulation only supported on Windows"@
}

/// The note that an action is tested.
pub open spec fn testing_note(action: ActionConfigView) -> LogNoteView {
    note(
        LogEntryLevel::Info,
        "Testing action: "@ + action.executable_path + " "@ + action.arguments,
        "Test"@,
    )
}

/// How the test of an action begins.
#[derive(Debug)]
pub enum TestStart {
    /// The effect is to be carried out.
    Run(Effect),
    /// The test has ended with the given failure.
    Refused(String),
}

/// The view of a [`TestStart`].
pub enum TestStartView {
    Run(EffectView),
    Refused(Seq<char>),
}

impl View for TestStart {
    type V = TestStartView;

    open spec fn view(&self) -> TestStartView {
        match self {
            TestStart::Run(effect) => TestStartView::Run(effect@),
            TestStart::Refused(reason) => TestStartView::Refused(reason@),
        }
    }
}

/// The process that the test of an action starts. On Windows everything goes through
/// the shell. Elsewhere an application and a script are started directly, and a system
/// command goes through the shell.
pub open spec fn test_request(action: ActionConfigView, platform: Platform) -> SpawnRequestView {
    if platform == Platform::Other && action.action_type != ActionType::SystemCommand {
        SpawnRequestView {
            program: action.executable_path,
            args: parse_arguments_spec(action.arguments),
            working_dir: None,
            elevated: false,
        }
    } else {
        shell_request(platform, action.executable_path, action.arguments)
    }
}

/// How the test of an action begins, and the notes that go to the log, in order.
pub open spec fn test_start_spec(action: ActionConfigView, platform: Platform) -> (
    TestStartView,
    Seq<LogNoteView>,
) {
    let testing = testing_note(action);
    if action.action_type == ActionType::Hotkey {
        match platform {
            Platform::Other => (TestStartView::Refused(test_unsupported_message()), seq![testing]),
            Platform::Windows => match execute_hotkey_spec(action.executable_path, platform) {
                Ok(batch) => (TestStartView::Run(EffectView::SendKeys(batch)), seq![testing]),
                Err(e) => (
                    TestStartView::Refused(error_message(e)),
                    seq![
                        testing,
                        note(LogEntryLevel::Error, "Hotkey failed: "@ + error_message(e), "Test"@),
                    ],
                ),
            },
        }
    } else {
        (TestStartView::Run(EffectView::Spawn(test_request(action, platform))), seq![testing])
    }
}

/// Begins the test of an action: decides what is to be carried out.
pub fn plan_test(action: &ActionConfig, platform: Platform) -> (r: (TestStart, Vec<LogNote>))
    ensures
        r.0@ == test_start_spec(action@, platform).0,
        r.1.deep_view() == test_start_spec(action@, platform).1,
{
    let mut notes: Vec<LogNote> = Vec::new();
    let mut testing = "Testing action: ".to_owned();
    testing.append(action.executable_path.as_str());
    testing.append(" ");
    testing.append(action.arguments.as_str());
    notes.push(make_note(LogEntryLevel::Info, testing, "Test"));
    let ghost first = testing_note(action@);
    assert(notes.deep_view() =~= seq![first]);
    match action.action_type {
        ActionType::Hotkey => match platform {
            Platform::Other => (
                TestStart::Refused("Hotkey simulation only supported on Windows".to_owned()),
                notes,
            ),
            Platform::Windows => match execute_hotkey(action.executable_path.as_str(), platform) {
                Ok(batch) => (TestStart::Run(Effect::SendKeys(batch)), notes),
                Err(e) => {
                    let reason = e.message();
                    notes.push(
                        make_note(
                            LogEntryLevel::Error,
                            joined("Hotkey failed: ", reason.as_str()),
                            "Test",
                        ),
                    );
                    assert(notes.deep_view() =~= seq![
                        first,
                        note(LogEntryLevel::Error, "Hotkey failed: "@ + error_message(e@), "Test"@),
                    ]);
                    (TestStart::Refused(reason), notes)
                },
            },
        },
        ActionType::SystemCommand => (
            TestStart::Run(
                Effect::Spawn(
                    shell_command(
                        platform,
                        action.executable_path.clone(),
                        action.arguments.as_str(),
                    ),
                ),
            ),
            notes,
        ),
        _ => match platform {
            Platform::Windows => (
                TestStart::Run(
                    Effect::Spawn(
                        shell_command(
                            platform,
                            action.executable_path.clone(),
                            action.arguments.as_str(),
                        ),
                    ),
                ),
                notes,
            ),
            Platform::Other => (
                TestStart::Run(
                    Effect::Spawn(
                        SpawnRequest {
                            program: action.executable_path.clone(),
                            args: parse_arguments(action.arguments.as_str()),
                            working_dir: None,
                            elevated: false,
                        },
                    ),
                ),
                notes,
            ),
        },
    }
}

/// The first half of testing an action: writes the notes to the log and says what is
/// to be carried out.
pub fn test_action(config: &mut ConfigManager, action: &ActionConfig, platform: Platform) -> (r:
    TestStart)
    ensures
        r@ == test_start_spec(action@, platform).0,
        final(config)@.bindings == old(config)@.bindings,
        final(config)@.settings == old(config)@.settings,
        logs_follow(
            old(config)@.logs,
            final(config)@.logs,
            test_start_spec(action@, platform).1,
            old(config)@.settings.max_log_entries,
        ),
{
    let (start, notes) = plan_test(action, platform);
    add_notes(config, notes);
    start
}

/// The note on how the test of an action ended.
pub open spec fn tested_note(action: ActionConfigView, result: Result<(), Seq<char>>) -> LogNoteView {
    let hotkey = action.action_type == ActionType::Hotkey;
    match result {
        Ok(()) => note(
            LogEntryLevel::Success,
            if hotkey {
                "Hotkey executed: "@ + action.executable_path
            } else {
                "Action executed successfully"@
            },
            "Test"@,
        ),
        Err(reason) => note(
            LogEntryLevel::Error,
            if hotkey {
                "Hotkey failed: "@ + reason
            } else {
                "Action failed: "@ + reason
            },
            "Test"@,
        ),
    }
}

/// The second half of testing an action, after the caller carried out the effect.
pub fn action_tested(config: &mut ConfigManager, action: &ActionConfig, result: Result<(), String>) -> (r:
    IpcResult<()>)
    ensures
        r.well_formed(),
        final(config)@.bindings == old(config)@.bindings,
        final(config)@.settings == old(config)@.settings,
        logs_follow(
            old(config)@.logs,
            final(config)@.logs,
            seq![tested_note(action@, crate::listener::effect_result_view(result))],
            old(config)@.settings.max_log_entries,
        ),
        match result {
            Ok(()) => is_done(r),
            Err(reason) => is_failure(r, reason@),
        },
{
    let hotkey = action.action_type == ActionType::Hotkey;
    let mut notes: Vec<LogNote> = Vec::new();
    match result {
        Ok(()) => {
            let message = if hotkey {
                joined("Hotkey executed: ", action.executable_path.as_str())
            } else {
                "Action executed successfully".to_owned()
            };
            notes.push(make_note(LogEntryLevel::Success, message, "Test"));
            assert(notes.deep_view() =~= seq![tested_note(action@, Ok(()))]);
            add_notes(config, notes);
            IpcResult::ok_empty()
        },
        Err(reason) => {
            let message = if hotkey {
                joined("Hotkey failed: ", reason.as_str())
            } else {
                joined("Action failed: ", reason.as_str())
            };
            notes.push(make_note(LogEntryLevel::Error, message, "Test"));
            assert(notes.deep_view() =~= seq![tested_note(action@, Err(reason@))]);
            add_notes(config, notes);
            IpcResult::err(reason)
        },
    }
}

/// Answers the request for the log.
pub fn get_logs(config: &ConfigManager, limit: Option<usize>) -> (r: IpcResult<Vec<LogEntry>>)
    ensures
        r.well_formed() && r.success,
        r.data->0.deep_view() == config@.logs.take(
            crate::config::log_window(
                limit,
                config@.settings.max_log_entries,
                config@.logs.len(),
            ) as int,
        ),
{
    IpcResult::ok(config.get_logs(limit))
}

/// The second half of clearing the log, after the store emptied it and the caller
/// tried to write the file.
pub fn logs_cleared(written: Result<(), String>) -> (r: IpcResult<()>)
    ensures
        r.well_formed(),
        match written {
            Ok(()) => is_done(r),
            Err(reason) => is_failure(r, reason@),
        },
{
    match written {
        Ok(()) => IpcResult::ok_empty(),
        Err(reason) => IpcResult::err(reason),
    }
}

} // verus!
