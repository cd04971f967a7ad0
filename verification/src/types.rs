//! The records that the store, the monitors and the front-end exchange.
//!
//! Every record with text in it has a view, a ghost record of the same shape in which each
//! `String` is the sequence of its characters. Contracts across the crate speak of views.
use vstd::prelude::*;

verus! {

/// What is known of a device's connection and configuration.
#[derive(Debug, Clone, Copy, PartialEq, Eq, Structural)]
pub enum DeviceStatus {
    Connected,
    Disconnected,
    Configured,
}

/// The press pattern that a binding waits for, or that the classifier recognised.
#[derive(Debug, Clone, Copy, PartialEq, Eq, Structural)]
pub enum TriggerType {
    SinglePress,
    DoublePress,
    LongPress,
}

/// The kind of effect that a binding carries.
#[derive(Debug, Clone, Copy, PartialEq, Eq, Structural)]
pub enum ActionType {
    LaunchApp,
    RunScript,
    SystemCommand,
    Hotkey,
}

/// The colour scheme of the front-end.
#[derive(Debug, Clone, Copy, PartialEq, Eq, Structural)]
pub enum Theme {
    Light,
    Dark,
    System,
}

/// The verbosity chosen in the settings.
#[derive(Debug, Clone, Copy, PartialEq, Eq, Structural)]
pub enum LogLevel {
    Debug,
    Info,
    Warn,
    Error,
}

/// The severity of one entry of the log.
#[derive(Debug, Clone, Copy, PartialEq, Eq, Structural)]
pub enum LogEntryLevel {
    Debug,
    Info,
    Success,
    Warn,
    Error,
}

/// A device as the front-end lists it. `id` is the canonical `VVVV:PPPP` form.
#[derive(Debug)]
pub struct HidDevice {
    pub id: String,
    pub name: String,
    pub vendor_id: String,
    pub product_id: String,
    pub interface_number: u8,
    pub total_interfaces: u8,
    pub status: DeviceStatus,
    pub manufacturer: Option<String>,
    pub serial_number: Option<String>,
}

/// The view of a [`HidDevice`].
pub struct HidDeviceView {
    pub id: Seq<char>,
    pub name: Seq<char>,
    pub vendor_id: Seq<char>,
    pub product_id: Seq<char>,
    pub interface_number: u8,
    pub total_interfaces: u8,
    pub status: DeviceStatus,
    pub manufacturer: Option<Seq<char>>,
    pub serial_number: Option<Seq<char>>,
}

impl DeepView for HidDevice {
    type V = HidDeviceView;

    open spec fn deep_view(&self) -> HidDeviceView {
        HidDeviceView {
            id: self.id@,
            name: self.name@,
            vendor_id: self.vendor_id@,
            product_id: self.product_id@,
            interface_number: self.interface_number,
            total_interfaces: self.total_interfaces,
            status: self.status,
            manufacturer: self.manufacturer.deep_view(),
            serial_number: self.serial_number.deep_view(),
        }
    }
}

impl View for HidDevice {
    type V = HidDeviceView;

    open spec fn view(&self) -> HidDeviceView {
        self.deep_view()
    }
}

impl Clone for HidDevice {
    fn clone(&self) -> (r: Self)
        ensures
            r@ == self@,
    {
        HidDevice {
            id: self.id.clone(),
            name: self.name.clone(),
            vendor_id: self.vendor_id.clone(),
            product_id: self.product_id.clone(),
            interface_number: self.interface_number,
            total_interfaces: self.total_interfaces,
            status: self.status,
            manufacturer: self.manufacturer.clone(),
            serial_number: self.serial_number.clone(),
        }
    }
}

/// What a binding does when it fires. For a hotkey, `executable_path` holds the chord.
#[derive(Debug)]
pub struct ActionConfig {
    pub action_type: ActionType,
    pub executable_path: String,
    pub arguments: String,
    pub working_directory: Option<String>,
    pub run_as_admin: Option<bool>,
}

/// The view of an [`ActionConfig`].
pub struct ActionConfigView {
    pub action_type: ActionType,
    pub executable_path: Seq<char>,
    pub arguments: Seq<char>,
    pub working_directory: Option<Seq<char>>,
    pub run_as_admin: Option<bool>,
}

impl DeepView for ActionConfig {
    type V = ActionConfigView;

    open spec fn deep_view(&self) -> ActionConfigView {
        ActionConfigView {
            action_type: self.action_type,
            executable_path: self.executable_path@,
            arguments: self.arguments@,
            working_directory: self.working_directory.deep_view(),
            run_as_admin: self.run_as_admin,
        }
    }
}

impl View for ActionConfig {
    type V = ActionConfigView;

    open spec fn view(&self) -> ActionConfigView {
        self.deep_view()
    }
}

impl Clone for ActionConfig {
    fn clone(&self) -> (r: Self)
        ensures
            r@ == self@,
    {
        ActionConfig {
            action_type: self.action_type,
            executable_path: self.executable_path.clone(),
            arguments: self.arguments.clone(),
            working_directory: self.working_directory.clone(),
            run_as_admin: self.run_as_admin,
        }
    }
}

/// One device bound to one action. `device_id` is the canonical `VVVV:PPPP` form and is
/// the key under which the store finds the binding.
#[derive(Debug)]
pub struct DeviceBinding {
    pub id: String,
    pub device_id: String,
    pub vendor_id: String,
    pub product_id: String,
    pub trigger_type: TriggerType,
    pub action: ActionConfig,
    pub enabled: bool,
    pub created_at: String,
    pub updated_at: String,
}

/// The view of a [`DeviceBinding`].
pub struct DeviceBindingView {
    pub id: Seq<char>,
    pub device_id: Seq<char>,
    pub vendor_id: Seq<char>,
    pub product_id: Seq<char>,
    pub trigger_type: TriggerType,
    pub action: ActionConfigView,
    pub enabled: bool,
    pub created_at: Seq<char>,
    pub updated_at: Seq<char>,
}

impl DeepView for DeviceBinding {
    type V = DeviceBindingView;

    open spec fn deep_view(&self) -> DeviceBindingView {
        DeviceBindingView {
            id: self.id@,
            device_id: self.device_id@,
            vendor_id: self.vendor_id@,
            product_id: self.product_id@,
            trigger_type: self.trigger_type,
            action: self.action@,
            enabled: self.enabled,
            created_at: self.created_at@,
            updated_at: self.updated_at@,
        }
    }
}

impl View for DeviceBinding {
    type V = DeviceBindingView;

    open spec fn view(&self) -> DeviceBindingView {
        self.deep_view()
    }
}

impl Clone for DeviceBinding {
    fn clone(&self) -> (r: Self)
        ensures
            r@ == self@,
    {
        DeviceBinding {
            id: self.id.clone(),
            device_id: self.device_id.clone(),
            vendor_id: self.vendor_id.clone(),
            product_id: self.product_id.clone(),
            trigger_type: self.trigger_type,
            action: self.action.clone(),
            enabled: self.enabled,
            created_at: self.created_at.clone(),
            updated_at: self.updated_at.clone(),
        }
    }
}

/// `Uuid::new_v4` draws a random identifier, and its `to_string` writes it out. Nothing
/// is claimed of the text: it differs from call to call. The call panics where the
/// operating system has no random bytes to give.
#[verifier::external_body]
fn fresh_id() -> (id: String) {
    uuid::Uuid::new_v4().to_string()
}

/// `Utc::now` reads the clock, and `to_rfc3339` writes the instant out. Nothing is
/// claimed of the text: it depends on when the call is made. The call panics where the
/// system clock stands before 1970.
#[verifier::external_body]
fn timestamp_now() -> (stamp: String) {
    chrono::Utc::now().to_rfc3339()
}

impl DeviceBinding {
    /// The binding that carries the given identifier and creation time: enabled, and
    /// never updated since it was created.
    pub fn stamped(
        id: String,
        now: String,
        device_id: String,
        vendor_id: String,
        product_id: String,
        trigger_type: TriggerType,
        action: ActionConfig,
    ) -> (r: Self)
        ensures
            r@ == (DeviceBindingView {
                id: id@,
                device_id: device_id@,
                vendor_id: vendor_id@,
                product_id: product_id@,
                trigger_type,
                action: action@,
                enabled: true,
                created_at: now@,
                updated_at: now@,
            }),
    {
        let created_at = now.clone();
        DeviceBinding {
            id,
            device_id,
            vendor_id,
            product_id,
            trigger_type,
            action,
            enabled: true,
            created_at,
            updated_at: now,
        }
    }

    /// A new enabled binding with a fresh random identifier, created and updated at the
    /// present moment. The identifier and the time are whatever the generator and the
    /// clock give; everything else is fixed by the arguments.
    pub fn new(
        device_id: String,
        vendor_id: String,
        product_id: String,
        trigger_type: TriggerType,
        action: ActionConfig,
    ) -> (r: Self)
        ensures
            r@.device_id == device_id@,
            r@.vendor_id == vendor_id@,
            r@.product_id == product_id@,
            r@.trigger_type == trigger_type,
            r@.action == action@,
            r@.enabled,
            r@.created_at == r@.updated_at,
    {
        let id = fresh_id();
        let now = timestamp_now();
        DeviceBinding::stamped(id, now, device_id, vendor_id, product_id, trigger_type, action)
    }
}

/// The settings block of the configuration file.
#[derive(Debug, Clone, Copy, PartialEq, Eq, Structural)]
pub struct AppSettings {
    pub start_minimized: bool,
    pub start_with_windows: bool,
    pub show_in_tray: bool,
    pub theme: Theme,
    pub log_level: LogLevel,
    pub max_log_entries: u32,
}

impl AppSettings {
    /// The settings of a fresh installation.
    pub open spec fn initial() -> AppSettings {
        AppSettings {
            start_minimized: false,
            start_with_windows: false,
            show_in_tray: true,
            theme: Theme::System,
            log_level: LogLevel::Info,
            max_log_entries: 100,
        }
    }
}

impl Default for AppSettings {
    fn default() -> (r: Self)
        ensures
            r == AppSettings::initial(),
    {
        AppSettings {
            start_minimized: false,
            start_with_windows: false,
            show_in_tray: true,
            theme: Theme::System,
            log_level: LogLevel::Info,
            max_log_entries: 100,
        }
    }
}

/// One line of the log that the front-end shows.
#[derive(Debug)]
pub struct LogEntry {
    pub id: String,
    pub timestamp: String,
    pub level: LogEntryLevel,
    pub message: String,
    pub source: Option<String>,
}

/// The view of a [`LogEntry`].
pub struct LogEntryView {
    pub id: Seq<char>,
    pub timestamp: Seq<char>,
    pub level: LogEntryLevel,
    pub message: Seq<char>,
    pub source: Option<Seq<char>>,
}

impl DeepView for LogEntry {
    type V = LogEntryView;

    open spec fn deep_view(&self) -> LogEntryView {
        LogEntryView {
            id: self.id@,
            timestamp: self.timestamp@,
            level: self.level,
            message: self.message@,
            source: self.source.deep_view(),
        }
    }
}

impl View for LogEntry {
    type V = LogEntryView;

    open spec fn view(&self) -> LogEntryView {
        self.deep_view()
    }
}

impl Clone for LogEntry {
    fn clone(&self) -> (r: Self)
        ensures
            r@ == self@,
    {
        LogEntry {
            id: self.id.clone(),
            timestamp: self.timestamp.clone(),
            level: self.level,
            message: self.message.clone(),
            source: self.source.clone(),
        }
    }
}

impl LogEntry {
    /// The entry that carries the given identifier and time.
    pub fn stamped(
        id: String,
        timestamp: String,
        level: LogEntryLevel,
        message: String,
        source: Option<String>,
    ) -> (r: Self)
        ensures
            r@ == (LogEntryView {
                id: id@,
                timestamp: timestamp@,
                level,
                message: message@,
                source: source.deep_view(),
            }),
    {
        LogEntry { id, timestamp, level, message, source }
    }

    /// A new entry with a fresh random identifier, stamped with the present moment. The
    /// identifier and the time are whatever the generator and the clock give.
    pub fn new(level: LogEntryLevel, message: String, source: Option<String>) -> (r: Self)
        ensures
            r@.level == level,
            r@.message == message@,
            r@.source == source.deep_view(),
    {
        let id = fresh_id();
        let timestamp = timestamp_now();
        LogEntry::stamped(id, timestamp, level, message, source)
    }
}

/// Whether a find-by-press session runs, and what it has found.
#[derive(Debug)]
pub struct MonitoringState {
    pub is_active: bool,
    pub detected_device: Option<HidDevice>,
}

/// The view of a [`MonitoringState`].
pub struct MonitoringStateView {
    pub is_active: bool,
    pub detected_device: Option<HidDeviceView>,
}

impl DeepView for MonitoringState {
    type V = MonitoringStateView;

    open spec fn deep_view(&self) -> MonitoringStateView {
        MonitoringStateView {
            is_active: self.is_active,
            detected_device: self.detected_device.deep_view(),
        }
    }
}

impl View for MonitoringState {
    type V = MonitoringStateView;

    open spec fn view(&self) -> MonitoringStateView {
        self.deep_view()
    }
}

impl Clone for MonitoringState {
    fn clone(&self) -> (r: Self)
        ensures
            r@ == self@,
    {
        let detected_device = match &self.detected_device {
            Some(d) => Some(d.clone()),
            None => None,
        };
        MonitoringState { is_active: self.is_active, detected_device }
    }
}

impl Default for MonitoringState {
    fn default() -> (r: Self)
        ensures
            r@ == (MonitoringStateView { is_active: false, detected_device: None }),
    {
        MonitoringState { is_active: false, detected_device: None }
    }
}

/// The envelope in which every command answers the front-end: either data or an error
/// message, never both.
#[derive(Debug, Clone)]
pub struct IpcResult<T> {
    pub success: bool,
    pub data: Option<T>,
    pub error: Option<String>,
}

impl<T> IpcResult<T> {
    /// Whether the envelope is one of the two forms that the constructors build.
    pub open spec fn well_formed(&self) -> bool {
        if self.success {
            self.data is Some && self.error is None
        } else {
            self.data is None && self.error is Some
        }
    }

    /// The successful answer that carries `data`.
    pub fn ok(data: T) -> (r: Self)
        ensures
            r.success,
            r.data == Some(data),
            r.error is None,
            r.well_formed(),
    {
        IpcResult { success: true, data: Some(data), error: None }
    }

    /// The failed answer that carries the message `error`.
    pub fn err(error: String) -> (r: Self)
        ensures
            !r.success,
            r.data is None,
            r.error == Some(error),
            r.well_formed(),
    {
        IpcResult { success: false, data: None, error: Some(error) }
    }
}

impl IpcResult<()> {
    /// The successful answer of a command that returns nothing.
    pub fn ok_empty() -> (r: Self)
        ensures
            r.success,
            r.data == Some(()),
            r.error is None,
            r.well_formed(),
    {
        IpcResult { success: true, data: Some(()), error: None }
    }
}

} // verus!
