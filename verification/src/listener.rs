//! The background listener: classifies each press, finds the binding of its device and
//! decides what is to be done, and records what came of it.
//!
//! Starting a process and posting key events are the caller's part. The listener hands
//! out the effect to carry out, and takes back whether it succeeded.
use vstd::prelude::*;
use vstd::string::*;
use crate::arguments::{parse_arguments, parse_arguments_spec};
use crate::classifier::{after_dispatch, next_state, trigger_of, Classifier, DeviceEvent, TriggeredEvent};
use crate::config::{binding_for_device, logs_after_add, ConfigManager};
use crate::hotkey::{
    error_message, execute_hotkey, execute_hotkey_spec, HotkeyError, HotkeyErrorView, KeyInput,
    Platform,
};
use crate::identity::{canonical, canonical_string};
use crate::text::strings_view;
use crate::types::{
    ActionConfig, ActionConfigView, ActionType, DeviceBinding, DeviceBindingView, LogEntryLevel,
    LogEntryView, TriggerType,
};

verus! {

/// A process to start. `elevated` asks for administrator rights; whether they can be
/// had is the platform's affair.
#[derive(Debug)]
pub struct SpawnRequest {
    pub program: String,
    pub args: Vec<String>,
    pub working_dir: Option<String>,
    pub elevated: bool,
}

/// The view of a [`SpawnRequest`].
pub struct SpawnRequestView {
    pub program: Seq<char>,
    pub args: Seq<Seq<char>>,
    pub working_dir: Option<Seq<char>>,
    pub elevated: bool,
}

impl View for SpawnRequest {
    type V = SpawnRequestView;

    open spec fn view(&self) -> SpawnRequestView {
        SpawnRequestView {
            program: self.program@,
            args: strings_view(self.args@),
            working_dir: self.working_dir.deep_view(),
            elevated: self.elevated,
        }
    }
}

/// What the caller is to carry out for an action.
#[derive(Debug)]
pub enum Effect {
    /// Start a process.
    Spawn(SpawnRequest),
    /// Submit a batch of key events in one piece.
    SendKeys(Vec<KeyInput>),
}

/// The view of an [`Effect`].
pub enum EffectView {
    Spawn(SpawnRequestView),
    SendKeys(Seq<KeyInput>),
}

impl View for Effect {
    type V = EffectView;

    open spec fn view(&self) -> EffectView {
        match self {
            Effect::Spawn(request) => EffectView::Spawn(request@),
            Effect::SendKeys(batch) => EffectView::SendKeys(batch@),
        }
    }
}

/// How the dispatch of one classified press ended.
#[derive(Debug)]
pub enum DispatchOutcome {
    /// The device has no binding.
    NoMatch,
    /// The device's binding is switched off.
    Disabled,
    /// The binding waits for another kind of press.
    TriggerMismatch,
    /// The action ran.
    Executed,
    /// The action did not run; the reason is given.
    Failed(String),
}

/// The view of a [`DispatchOutcome`].
pub enum DispatchOutcomeView {
    NoMatch,
    Disabled,
    TriggerMismatch,
    Executed,
    Failed(Seq<char>),
}

impl View for DispatchOutcome {
    type V = DispatchOutcomeView;

    open spec fn view(&self) -> DispatchOutcomeView {
        match self {
            DispatchOutcome::NoMatch => DispatchOutcomeView::NoMatch,
            DispatchOutcome::Disabled => DispatchOutcomeView::Disabled,
            DispatchOutcome::TriggerMismatch => DispatchOutcomeView::TriggerMismatch,
            DispatchOutcome::Executed => DispatchOutcomeView::Executed,
            DispatchOutcome::Failed(reason) => DispatchOutcomeView::Failed(reason@),
        }
    }
}

/// What is decided for a classified press: either the dispatch has ended, or an effect
/// is to be carried out for the action of the binding.
#[derive(Debug)]
pub enum Decision {
    Settled(DispatchOutcome),
    Run { action: ActionConfig, effect: Effect },
}

/// The view of a [`Decision`].
pub enum DecisionView {
    Settled(DispatchOutcomeView),
    Run { action: ActionConfigView, effect: EffectView },
}

impl View for Decision {
    type V = DecisionView;

    open spec fn view(&self) -> DecisionView {
        match self {
            Decision::Settled(outcome) => DecisionView::Settled(outcome@),
            Decision::Run { action, effect } => DecisionView::Run {
                action: action@,
                effect: effect@,
            },
        }
    }
}

/// A line for the log, before it has an identifier and a time.
#[derive(Debug)]
pub struct LogNote {
    pub level: LogEntryLevel,
    pub message: String,
    pub source: Option<String>,
}

/// The view of a [`LogNote`].
pub struct LogNoteView {
    pub level: LogEntryLevel,
    pub message: Seq<char>,
    pub source: Option<Seq<char>>,
}

impl DeepView for LogNote {
    type V = LogNoteView;

    open spec fn deep_view(&self) -> LogNoteView {
        LogNoteView {
            level: self.level,
            message: self.message@,
            source: self.source.deep_view(),
        }
    }
}

impl View for LogNote {
    type V = LogNoteView;

    open spec fn view(&self) -> LogNoteView {
        self.deep_view()
    }
}

/// The name of a trigger, as the log shows it.
pub open spec fn trigger_name(trigger: TriggerType) -> Seq<char> {
    match trigger {
        TriggerType::SinglePress => "SinglePress"@,
        TriggerType::DoublePress => "DoublePress"@,
        TriggerType::LongPress => "LongPress"@,
    }
}

/// The name of a kind of action, as the log shows it.
pub open spec fn action_label(action_type: ActionType) -> Seq<char> {
    match action_type {
        ActionType::LaunchApp => "Launch App"@,
        ActionType::RunScript => "Run Script"@,
        ActionType::SystemCommand => "System Command"@,
        ActionType::Hotkey => "Hotkey"@,
    }
}

/// A note about the device `id`.
pub open spec fn note(level: LogEntryLevel, message: Seq<char>, id: Seq<char>) -> LogNoteView {
    LogNoteView { level, message, source: Some(id) }
}

/// The process that runs `command` through the platform's shell. On Windows the shell
/// is `cmd /C` and the arguments follow one by one; elsewhere it is `sh -c` and the
/// argument text follows the command in one piece.
pub open spec fn shell_request(platform: Platform, command: Seq<char>, arguments: Seq<char>) -> SpawnRequestView {
    match platform {
        Platform::Windows => SpawnRequestView {
            program: "cmd"@,
            args: seq!["/C"@, command] + parse_arguments_spec(arguments),
            working_dir: None,
            elevated: false,
        },
        Platform::Other => SpawnRequestView {
            program: "sh"@,
            args: seq!["-c"@, command + " "@ + arguments],
            working_dir: None,
            elevated: false,
        },
    }
}

/// `path` between double quotes.
pub open spec fn quoted(path: Seq<char>) -> Seq<char> {
    "\""@ + path + "\""@
}

/// The effect that carries out an action, or the reason why there is none. An
/// application is started directly with its arguments, in its working directory where
/// one is given, and with administrator rights where the action asks for them. A script
/// and a system command go through the shell, the script's path in quotes. A hotkey
/// becomes a batch of key events.
pub open spec fn plan_action_spec(action: ActionConfigView, platform: Platform) -> Result<
    EffectView,
    HotkeyErrorView,
> {
    match action.action_type {
        ActionType::LaunchApp => Ok(
            EffectView::Spawn(
                SpawnRequestView {
                    program: action.executable_path,
                    args: parse_arguments_spec(action.arguments),
                    working_dir: action.working_directory,
                    elevated: action.run_as_admin == Some(true),
                },
            ),
        ),
        ActionType::RunScript => Ok(
            EffectView::Spawn(
                shell_request(platform, quoted(action.executable_path), action.arguments),
            ),
        ),
        ActionType::SystemCommand => Ok(
            EffectView::Spawn(shell_request(platform, action.executable_path, action.arguments)),
        ),
        ActionType::Hotkey => match execute_hotkey_spec(action.executable_path, platform) {
            Ok(batch) => Ok(EffectView::SendKeys(batch)),
            Err(e) => Err(e),
        },
    }
}

/// The view of the outcome of planning an action.
pub open spec fn plan_result_view(r: Result<Effect, HotkeyError>) -> Result<
    EffectView,
    HotkeyErrorView,
> {
    match r {
        Ok(effect) => Ok(effect@),
        Err(e) => Err(e@),
    }
}

/// The two strings joined.
pub fn joined(a: &str, b: &str) -> (r: String)
    ensures
        r@ == a@ + b@,
{
    let mut r = a.to_owned();
    r.append(b);
    r
}

/// The process that runs `command` through the platform's shell.
pub fn shell_command(platform: Platform, command: String, arguments: &str) -> (r: SpawnRequest)
    ensures
        r@ == shell_request(platform, command@, arguments@),
{
    match platform {
        Platform::Windows => {
            let mut args: Vec<String> = Vec::new();
            args.push("/C".to_owned());
            args.push(command);
            let mut rest = parse_arguments(arguments);
            let ghost head = strings_view(args@);
            let ghost tail = strings_view(rest@);
            args.append(&mut rest);
            assert(strings_view(args@) =~= head + tail);
            assert(head =~= seq!["/C"@, command@]);
            SpawnRequest { program: "cmd".to_owned(), args, working_dir: None, elevated: false }
        },
        Platform::Other => {
            let mut line = command;
            line.append(" ");
            line.append(arguments);
            let mut args: Vec<String> = Vec::new();
            args.push("-c".to_owned());
            args.push(line);
            assert(strings_view(args@) =~= seq!["-c"@, command@ + " "@ + arguments@]);
            SpawnRequest { program: "sh".to_owned(), args, working_dir: None, elevated: false }
        },
    }
}

/// Plans the effect that carries out an action.
pub fn plan_action(action: &ActionConfig, platform: Platform) -> (r: Result<Effect, HotkeyError>)
    ensures
        plan_result_view(r) == plan_action_spec(action@, platform),
{
    match action.action_type {
        ActionType::LaunchApp => Ok(
            Effect::Spawn(
                SpawnRequest {
                    program: action.executable_path.clone(),
                    args: parse_arguments(action.arguments.as_str()),
                    working_dir: action.working_directory.clone(),
                    elevated: match action.run_as_admin {
                        Some(wanted) => wanted,
                        None => false,
                    },
                },
            ),
        ),
        ActionType::RunScript => {
            let mut command = "\"".to_owned();
            command.append(action.executable_path.as_str());
            command.append("\"");
            Ok(Effect::Spawn(shell_command(platform, command, action.arguments.as_str())))
        },
        ActionType::SystemCommand => Ok(
            Effect::Spawn(
                shell_command(
                    platform,
                    action.executable_path.clone(),
                    action.arguments.as_str(),
                ),
            ),
        ),
        ActionType::Hotkey => match execute_hotkey(action.executable_path.as_str(), platform) {
            Ok(batch) => Ok(Effect::SendKeys(batch)),
            Err(e) => Err(e),
        },
    }
}

/// The note that a press was seen.
pub open spec fn press_note(trigger: TriggerType, id: Seq<char>) -> LogNoteView {
    note(LogEntryLevel::Info, trigger_name(trigger) + " on device "@ + id, id)
}

/// The note that an action is about to run.
pub open spec fn executing_note(trigger: TriggerType, action: ActionConfigView, id: Seq<char>) -> LogNoteView {
    note(
        LogEntryLevel::Info,
        "Executing ("@ + trigger_name(trigger) + "): "@ + action_label(action.action_type) + ": "@
            + action.executable_path,
        id,
    )
}

/// What is decided for a classified press of the given kind from the device `id`,
/// given the binding that the store holds for the device, and the notes that go to the
/// log, in order. A device without a binding, or with a binding that is switched off,
/// is noted as a warning. A binding for another kind of press ends the dispatch
/// silently. Otherwise the action is planned; a hotkey that cannot be planned is noted
/// as an error and ends the dispatch as failed.
pub open spec fn dispatch_spec(
    trigger: TriggerType,
    id: Seq<char>,
    binding: Option<DeviceBindingView>,
    platform: Platform,
) -> (DecisionView, Seq<LogNoteView>) {
    let seen = press_note(trigger, id);
    match binding {
        None => (
            DecisionView::Settled(DispatchOutcomeView::NoMatch),
            seq![seen, note(LogEntryLevel::Warn, "No binding configured for device "@ + id, id)],
        ),
        Some(b) => if !b.enabled {
            (
                DecisionView::Settled(DispatchOutcomeView::Disabled),
                seq![seen, note(LogEntryLevel::Warn, "Binding disabled for device "@ + id, id)],
            )
        } else if b.trigger_type != trigger {
            (DecisionView::Settled(DispatchOutcomeView::TriggerMismatch), seq![seen])
        } else {
            match plan_action_spec(b.action, platform) {
                Ok(effect) => (
                    DecisionView::Run { action: b.action, effect },
                    seq![seen, executing_note(trigger, b.action, id)],
                ),
                Err(e) => (
                    DecisionView::Settled(DispatchOutcomeView::Failed(error_message(e))),
                    seq![
                        seen,
                        executing_note(trigger, b.action, id),
                        note(LogEntryLevel::Error, "Hotkey failed: "@ + error_message(e), id),
                    ],
                ),
            }
        },
    }
}

fn trigger_label(trigger: TriggerType) -> (s: &'static str)
    ensures
        s@ == trigger_name(trigger),
{
    match trigger {
        TriggerType::SinglePress => "SinglePress",
        TriggerType::DoublePress => "DoublePress",
        TriggerType::LongPress => "LongPress",
    }
}

fn action_kind_label(action_type: ActionType) -> (s: &'static str)
    ensures
        s@ == action_label(action_type),
{
    match action_type {
        ActionType::LaunchApp => "Launch App",
        ActionType::RunScript => "Run Script",
        ActionType::SystemCommand => "System Command",
        ActionType::Hotkey => "Hotkey",
    }
}

/// A note under the source tag `id`.
pub fn make_note(level: LogEntryLevel, message: String, id: &str) -> (n: LogNote)
    ensures
        n@ == note(level, message@, id@),
{
    LogNote { level, message, source: Some(id.to_owned()) }
}

/// Decides what is to be done for a classified press of the given kind from the device
/// `id`, given the binding that the store holds for the device. Hands back the decision
/// and the notes for the log.
pub fn dispatch(
    trigger: TriggerType,
    id: &str,
    binding: Option<&DeviceBinding>,
    platform: Platform,
) -> (r: (Decision, Vec<LogNote>))
    ensures
        r.0@ == dispatch_spec(trigger, id@, binding.deep_view(), platform).0,
        r.1.deep_view() == dispatch_spec(trigger, id@, binding.deep_view(), platform).1,
{
    let mut notes: Vec<LogNote> = Vec::new();
    let mut seen = trigger_label(trigger).to_owned();
    seen.append(" on device ");
    seen.append(id);
    notes.push(make_note(LogEntryLevel::Info, seen, id));
    let ghost first = press_note(trigger, id@);
    assert(notes.deep_view() =~= seq![first]);
    let b = match binding {
        None => {
            notes.push(
                make_note(LogEntryLevel::Warn, joined("No binding configured for device ", id), id),
            );
            assert(notes.deep_view() =~= seq![
                first,
                note(LogEntryLevel::Warn, "No binding configured for device "@ + id@, id@),
            ]);
            return (Decision::Settled(DispatchOutcome::NoMatch), notes);
        },
        Some(b) => b,
    };
    if !b.enabled {
        notes.push(make_note(LogEntryLevel::Warn, joined("Binding disabled for device ", id), id));
        assert(notes.deep_view() =~= seq![
            first,
            note(LogEntryLevel::Warn, "Binding disabled for device "@ + id@, id@),
        ]);
        return (Decision::Settled(DispatchOutcome::Disabled), notes);
    }
    if b.trigger_type != trigger {
        return (Decision::Settled(DispatchOutcome::TriggerMismatch), notes);
    }
    let mut executing = "Executing (".to_owned();
    executing.append(trigger_label(trigger));
    executing.append("): ");
    executing.append(action_kind_label(b.action.action_type));
    executing.append(": ");
    executing.append(b.action.executable_path.as_str());
    notes.push(make_note(LogEntryLevel::Info, executing, id));
    let ghost second = executing_note(trigger, b.action@, id@);
    assert(notes.deep_view() =~= seq![first, second]);
    match plan_action(&b.action, platform) {
        Ok(effect) => (Decision::Run { action: b.action.clone(), effect }, notes),
        Err(e) => {
            let reason = e.message();
            notes.push(make_note(LogEntryLevel::Error, joined("Hotkey failed: ", reason.as_str()), id));
            assert(notes.deep_view() =~= seq![
                first,
                second,
                note(LogEntryLevel::Error, "Hotkey failed: "@ + error_message(e@), id@),
            ]);
            (Decision::Settled(DispatchOutcome::Failed(reason)), notes)
        },
    }
}

/// The view of what carrying out an effect came to: done, or the reason why not.
pub open spec fn effect_result_view(r: Result<(), String>) -> Result<(), Seq<char>> {
    match r {
        Ok(()) => Ok(()),
        Err(reason) => Err(reason@),
    }
}

/// How a dispatch ends once its effect has been carried out, the note for the log, and
/// whether the device's press count starts over: it does after a double press whose
/// action ran.
pub open spec fn conclude_spec(
    trigger: TriggerType,
    id: Seq<char>,
    action: ActionConfigView,
    result: Result<(), Seq<char>>,
) -> (DispatchOutcomeView, LogNoteView, bool) {
    let hotkey = action.action_type == ActionType::Hotkey;
    match result {
        Ok(()) => (
            DispatchOutcomeView::Executed,
            note(
                LogEntryLevel::Success,
                if hotkey {
                    "Hotkey executed: "@ + action.executable_path
                } else {
                    "Action executed: "@ + action.executable_path
                },
                id,
            ),
            trigger == TriggerType::DoublePress,
        ),
        Err(reason) => (
            DispatchOutcomeView::Failed(reason),
            note(
                LogEntryLevel::Error,
                if hotkey {
                    "Hotkey failed: "@ + reason
                } else {
                    "Action failed: "@ + reason
                },
                id,
            ),
            false,
        ),
    }
}

/// Ends a dispatch whose effect has been carried out.
pub fn conclude(trigger: TriggerType, id: &str, action: &ActionConfig, result: Result<(), String>) -> (r: (
    DispatchOutcome,
    LogNote,
    bool,
))
    ensures
        r.0@ == conclude_spec(trigger, id@, action@, effect_result_view(result)).0,
        r.1@ == conclude_spec(trigger, id@, action@, effect_result_view(result)).1,
        r.2 == conclude_spec(trigger, id@, action@, effect_result_view(result)).2,
{
    let hotkey = action.action_type == ActionType::Hotkey;
    match result {
        Ok(()) => {
            let message = if hotkey {
                joined("Hotkey executed: ", action.executable_path.as_str())
            } else {
                joined("Action executed: ", action.executable_path.as_str())
            };
            (
                DispatchOutcome::Executed,
                make_note(LogEntryLevel::Success, message, id),
                trigger == TriggerType::DoublePress,
            )
        },
        Err(reason) => {
            let message = if hotkey {
                joined("Hotkey failed: ", reason.as_str())
            } else {
                joined("Action failed: ", reason.as_str())
            };
            (DispatchOutcome::Failed(reason), make_note(LogEntryLevel::Error, message, id), false)
        },
    }
}

/// Whether `entry` is `note` with an identifier and a time.
pub open spec fn carries(entry: LogEntryView, note: LogNoteView) -> bool {
    &&& entry.level == note.level
    &&& entry.message == note.message
    &&& entry.source == note.source
}

/// Whether the log `after` is what adding the notes to the log `before` can lead to:
/// each note in turn goes to the front with some identifier and time, and the log is
/// cut to `max_entries`.
pub open spec fn logs_follow(
    before: Seq<LogEntryView>,
    after: Seq<LogEntryView>,
    notes: Seq<LogNoteView>,
    max_entries: u32,
) -> bool
    decreases notes.len(),
{
    if notes.len() == 0 {
        after == before
    } else {
        exists|middle: Seq<LogEntryView>, entry: LogEntryView|
            logs_follow(before, middle, notes.drop_last(), max_entries) && #[trigger] last_added(
                middle,
                entry,
                after,
                notes.last(),
                max_entries,
            )
    }
}

/// Whether the log `after` is the log `middle` with `entry` added, and `entry` is `note`
/// with an identifier and a time.
pub open spec fn last_added(
    middle: Seq<LogEntryView>,
    entry: LogEntryView,
    after: Seq<LogEntryView>,
    note: LogNoteView,
    max_entries: u32,
) -> bool {
    carries(entry, note) && after == logs_after_add(middle, entry, max_entries)
}

/// Adds notes to the log, in order.
pub fn add_notes(config: &mut ConfigManager, notes: Vec<LogNote>)
    ensures
        logs_follow(
            old(config)@.logs,
            final(config)@.logs,
            notes.deep_view(),
            old(config)@.settings.max_log_entries,
        ),
        final(config)@.bindings == old(config)@.bindings,
        final(config)@.settings == old(config)@.settings,
{
    let ghost all = notes.deep_view();
    let ghost max_entries = config@.settings.max_log_entries;
    let mut notes = notes;
    let mut i: usize = 0;
    let n: usize = notes.len();
    assert(all.take(0) =~= Seq::<LogNoteView>::empty());
    let mut rest: Vec<LogNote> = Vec::new();
    while notes.len() > 0
        invariant
            rest.len() + notes.len() == n,
            n == all.len(),
            forall|j: int| 0 <= j < notes.len() ==> notes[j]@ == all[j],
            forall|j: int| 0 <= j < rest.len() ==> rest[j]@ == all[n - 1 - j],
        decreases notes.len(),
    {
        let last = notes.pop().unwrap();
        rest.push(last);
    }
    while rest.len() > 0
        invariant
            i + rest.len() == n,
            n == all.len(),
            forall|j: int| 0 <= j < rest.len() ==> rest[j]@ == all[n - 1 - j],
            logs_follow(old(config)@.logs, config@.logs, all.take(i as int), max_entries),
            config@.bindings == old(config)@.bindings,
            config@.settings == old(config)@.settings,
            max_entries == old(config)@.settings.max_log_entries,
        decreases rest.len(),
    {
        let next = rest.pop().unwrap();
        let ghost middle = config@.logs;
        let ghost shown = next@;
        assert(shown == all[i as int]);
        config.add_log(next.level, next.message, next.source);
        proof {
            let entry = choose|entry: LogEntryView|
                {
                    &&& entry.level == shown.level
                    &&& entry.message == shown.message
                    &&& entry.source == shown.source
                    &&& config@.logs == #[trigger] logs_after_add(middle, entry, max_entries)
                };
            assert(all.take(i + 1).drop_last() =~= all.take(i as int));
            assert(all.take(i + 1).last() == shown);
            assert(carries(entry, shown));
            assert(logs_follow(old(config)@.logs, middle, all.take(i + 1).drop_last(), max_entries));
            assert(last_added(middle, entry, config@.logs, all.take(i + 1).last(), max_entries));
        }
        i += 1;
    }
    assert(all.take(n as int) =~= all);
}

/// The listener: the classifier and the platform on which actions run.
pub struct BackgroundListener {
    classifier: Classifier,
    platform: Platform,
}

/// A press that has been classified and decided.
#[derive(Debug)]
pub struct Handled {
    pub event: TriggeredEvent,
    pub decision: Decision,
}

impl BackgroundListener {
    /// The press classifier of the listener.
    pub closed spec fn classifier(&self) -> Classifier {
        self.classifier
    }

    /// The platform on which the listener's actions run.
    pub closed spec fn platform(&self) -> Platform {
        self.platform
    }

    /// A listener that has seen no press.
    pub fn new(platform: Platform) -> (r: Self)
        ensures
            r.platform() == platform,
            r.classifier().window() == crate::classifier::DOUBLE_PRESS_WINDOW_MS,
            r.classifier().debounce() == crate::classifier::DEBOUNCE_FLOOR_MS,
            forall|v: u16, p: u16| r.classifier().state_of(v, p) is None,
    {
        BackgroundListener { classifier: Classifier::new(), platform }
    }

    /// Takes one raw press: classifies it, and, unless it is dropped as a second
    /// sighting of the last press, looks up the binding of its device, decides what is
    /// to be done and writes the notes to the log.
    pub fn on_press(&mut self, event: DeviceEvent, config: &mut ConfigManager) -> (r: Option<Handled>)
        ensures
            final(self).platform() == old(self).platform(),
            final(self).classifier().same_but(
                &old(self).classifier(),
                event.identity.vendor_id,
                event.identity.product_id,
            ),
            final(config)@.bindings == old(config)@.bindings,
            final(config)@.settings == old(config)@.settings,
            ({
                let v = event.identity.vendor_id;
                let p = event.identity.product_id;
                let id = canonical(v, p);
                let step = next_state(
                    old(self).classifier().state_of(v, p),
                    event.observed_at,
                    old(self).classifier().window(),
                    old(self).classifier().debounce(),
                );
                match step {
                    None => {
                        &&& r is None
                        &&& final(self).classifier().state_of(v, p) == old(self).classifier().state_of(
                            v,
                            p,
                        )
                        &&& final(config)@.logs == old(config)@.logs
                    },
                    Some(s) => {
                        let trigger = trigger_of(s.consecutive_count);
                        let decided = dispatch_spec(
                            trigger,
                            id,
                            binding_for_device(old(config)@.bindings, id),
                            old(self).platform(),
                        );
                        &&& final(self).classifier().state_of(v, p) == Some(s)
                        &&& r matches Some(handled)
                        &&& handled.event.identity == event.identity
                        &&& handled.event.trigger == trigger
                        &&& handled.event.observed_at == event.observed_at
                        &&& handled.decision@ == decided.0
                        &&& logs_follow(
                            old(config)@.logs,
                            final(config)@.logs,
                            decided.1,
                            old(config)@.settings.max_log_entries,
                        )
                    },
                }
            }),
    {
        let triggered = match self.classifier.observe(event) {
            None => {
                return None;
            },
            Some(t) => t,
        };
        let id = canonical_string(triggered.identity.vendor_id, triggered.identity.product_id);
        let binding = config.get_binding(id.as_str());
        let (decision, notes) = dispatch(triggered.trigger, id.as_str(), binding.as_ref(), self.platform);
        add_notes(config, notes);
        Some(Handled { event: triggered, decision })
    }

    /// Takes what carrying out an effect came to: writes the note to the log, and
    /// starts the device's press count over after a double press whose action ran.
    pub fn on_result(
        &mut self,
        event: &TriggeredEvent,
        action: &ActionConfig,
        result: Result<(), String>,
        config: &mut ConfigManager,
    ) -> (r: DispatchOutcome)
        ensures
            final(self).platform() == old(self).platform(),
            final(self).classifier().same_but(
                &old(self).classifier(),
                event.identity.vendor_id,
                event.identity.product_id,
            ),
            final(config)@.bindings == old(config)@.bindings,
            final(config)@.settings == old(config)@.settings,
            ({
                let v = event.identity.vendor_id;
                let p = event.identity.product_id;
                let ended = conclude_spec(
                    event.trigger,
                    canonical(v, p),
                    action@,
                    effect_result_view(result),
                );
                &&& r@ == ended.0
                &&& logs_follow(
                    old(config)@.logs,
                    final(config)@.logs,
                    seq![ended.1],
                    old(config)@.settings.max_log_entries,
                )
                &&& final(self).classifier().state_of(v, p) == (match old(self).classifier().state_of(
                    v,
                    p,
                ) {
                    Some(s) if ended.2 => Some(after_dispatch(s)),
                    other => other,
                })
            }),
    {
        let id = canonical_string(event.identity.vendor_id, event.identity.product_id);
        let (outcome, note, reset) = conclude(event.trigger, id.as_str(), action, result);
        let mut notes: Vec<LogNote> = Vec::new();
        let ghost shown = note@;
        notes.push(note);
        assert(notes.deep_view() =~= seq![shown]);
        add_notes(config, notes);
        if reset {
            self.classifier.action_fired(event);
        }
        outcome
    }
}

} // verus!
