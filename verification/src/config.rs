//! The binding store and the log: what the configuration file and the log file hold,
//! kept in memory. Reading and writing the files is the caller's part.
//!
//! A binding is for the device whose vendor and product numbers its device identifier
//! names. Lookup and replacement go by those numbers, not by the spelling of the text.
use vstd::prelude::*;
use crate::identity::{
    canonical, lemma_canonical_round_trip, parse_device_id, parse_device_id_spec, same_device,
};
use crate::text::{str_eq, strings_view};
use crate::types::{AppSettings, DeviceBinding, DeviceBindingView, LogEntry, LogEntryLevel, LogEntryView};

verus! {

/// What the configuration file holds.
#[derive(Debug)]
pub struct ConfigData {
    pub bindings: Vec<DeviceBinding>,
    pub settings: AppSettings,
}

/// The view of a [`ConfigData`].
pub struct ConfigDataView {
    pub bindings: Seq<DeviceBindingView>,
    pub settings: AppSettings,
}

impl View for ConfigData {
    type V = ConfigDataView;

    open spec fn view(&self) -> ConfigDataView {
        ConfigDataView { bindings: self.bindings.deep_view(), settings: self.settings }
    }
}

impl Default for ConfigData {
    fn default() -> (r: Self)
        ensures
            r@ == (ConfigDataView { bindings: Seq::empty(), settings: AppSettings::initial() }),
    {
        let r = ConfigData { bindings: Vec::new(), settings: AppSettings::default() };
        assert(r.bindings.deep_view() =~= Seq::empty());
        r
    }
}

/// The store: the bindings, the settings and the log, newest entry first.
pub struct ConfigManager {
    data: ConfigData,
    logs: Vec<LogEntry>,
}

/// The view of a [`ConfigManager`].
pub struct ConfigView {
    pub bindings: Seq<DeviceBindingView>,
    pub settings: AppSettings,
    pub logs: Seq<LogEntryView>,
}

/// Whether `i` is the index of the first binding for the device that `device_id` names.
/// Bindings are matched by the vendor and product numbers that their device identifier
/// names, not by its spelling.
pub open spec fn is_first_for_device(
    bindings: Seq<DeviceBindingView>,
    device_id: Seq<char>,
    i: int,
) -> bool {
    &&& 0 <= i < bindings.len()
    &&& same_device(bindings[i].device_id, device_id)
    &&& forall|j: int| 0 <= j < i ==> !same_device((#[trigger] bindings[j]).device_id, device_id)
}

/// The index of the first binding for the device that `device_id` names.
pub open spec fn first_for_device(bindings: Seq<DeviceBindingView>, device_id: Seq<char>) -> Option<
    int,
> {
    if exists|i: int| is_first_for_device(bindings, device_id, i) {
        Some(choose|i: int| is_first_for_device(bindings, device_id, i))
    } else {
        None
    }
}

/// The binding that a lookup by device finds: the first for the device that `device_id`
/// names, and none where no binding is for that device or `device_id` names no device.
pub open spec fn binding_for_device(bindings: Seq<DeviceBindingView>, device_id: Seq<char>) -> Option<
    DeviceBindingView,
> {
    match first_for_device(bindings, device_id) {
        Some(i) => Some(bindings[i]),
        None => None,
    }
}

/// The first index for a device is the one index that is first.
pub proof fn lemma_first_for_device_is(
    bindings: Seq<DeviceBindingView>,
    device_id: Seq<char>,
    i: int,
)
    requires
        is_first_for_device(bindings, device_id, i),
    ensures
        first_for_device(bindings, device_id) == Some(i),
{
    let k = choose|k: int| is_first_for_device(bindings, device_id, k);
    assert(is_first_for_device(bindings, device_id, k));
    if k < i {
        assert(!same_device(bindings[k].device_id, device_id));
    }
    if i < k {
        assert(!same_device(bindings[i].device_id, device_id));
    }
}

/// Where no binding is for the device, there is no first.
pub proof fn lemma_first_for_device_none(bindings: Seq<DeviceBindingView>, device_id: Seq<char>)
    requires
        forall|j: int|
            0 <= j < bindings.len() ==> !same_device((#[trigger] bindings[j]).device_id, device_id),
    ensures
        first_for_device(bindings, device_id) is None,
{
}

/// A lookup finds a binding exactly when some binding is for the device, and what it
/// finds is for the device. The spelling of the identifier makes no difference: two
/// identifiers that name the same device find the same binding.
pub proof fn lemma_lookup_by_identity(
    bindings: Seq<DeviceBindingView>,
    device_id: Seq<char>,
    other_id: Seq<char>,
)
    ensures
        binding_for_device(bindings, device_id) is Some <==> exists|i: int|
            0 <= i < bindings.len() && same_device((#[trigger] bindings[i]).device_id, device_id),
        binding_for_device(bindings, device_id) matches Some(b) ==> same_device(
            b.device_id,
            device_id,
        ),
        same_device(device_id, other_id) ==> binding_for_device(bindings, device_id)
            == binding_for_device(bindings, other_id),
{
    lemma_first_exists(bindings, device_id);
    if same_device(device_id, other_id) {
        lemma_first_exists(bindings, other_id);
        assert forall|j: int| 0 <= j < bindings.len() implies same_device(
            (#[trigger] bindings[j]).device_id,
            device_id,
        ) == same_device(bindings[j].device_id, other_id) by {
            reveal(same_device);
        }
        if let Some(i) = first_for_device(bindings, device_id) {
            assert(is_first_for_device(bindings, device_id, i));
            assert(is_first_for_device(bindings, other_id, i));
            lemma_first_for_device_is(bindings, other_id, i);
        } else {
            assert forall|j: int| 0 <= j < bindings.len() implies !same_device(
                (#[trigger] bindings[j]).device_id,
                other_id,
            ) by {
                assert(!same_device(bindings[j].device_id, device_id));
            }
            lemma_first_for_device_none(bindings, other_id);
        }
    }
}

/// A lookup under the canonical identifier of a device finds a binding exactly when some
/// binding's device identifier names that device, however it is spelled.
pub proof fn lemma_lookup_canonical(
    bindings: Seq<DeviceBindingView>,
    vendor_id: u16,
    product_id: u16,
)
    ensures
        binding_for_device(bindings, canonical(vendor_id, product_id)) is Some <==> exists|i: int|
            0 <= i < bindings.len() && parse_device_id_spec((#[trigger] bindings[i]).device_id)
                == Some((vendor_id, product_id)),
        binding_for_device(bindings, canonical(vendor_id, product_id)) matches Some(b)
            ==> parse_device_id_spec(b.device_id) == Some((vendor_id, product_id)),
{
    let id = canonical(vendor_id, product_id);
    reveal(same_device);
    lemma_canonical_round_trip(vendor_id, product_id);
    lemma_first_exists(bindings, id);
    if exists|i: int|
        0 <= i < bindings.len() && parse_device_id_spec((#[trigger] bindings[i]).device_id) == Some(
            (vendor_id, product_id),
        ) {
        let i = choose|i: int|
            0 <= i < bindings.len() && parse_device_id_spec((#[trigger] bindings[i]).device_id)
                == Some((vendor_id, product_id));
        assert(same_device(bindings[i].device_id, id));
    }
    if let Some(k) = first_for_device(bindings, id) {
        assert(same_device(bindings[k].device_id, id));
    }
}

/// Where some binding is for the device, one of them is the first, and it is the one that
/// the lookup finds; where none is, no binding of the store is for the device.
pub proof fn lemma_first_exists(bindings: Seq<DeviceBindingView>, device_id: Seq<char>)
    ensures
        first_for_device(bindings, device_id) is Some <==> exists|i: int|
            0 <= i < bindings.len() && same_device((#[trigger] bindings[i]).device_id, device_id),
        first_for_device(bindings, device_id) matches Some(i) ==> is_first_for_device(
            bindings,
            device_id,
            i,
        ),
        first_for_device(bindings, device_id) is None ==> forall|j: int|
            0 <= j < bindings.len() ==> !same_device((#[trigger] bindings[j]).device_id, device_id),
    decreases bindings.len(),
{
    if bindings.len() > 0 {
        let front = bindings.drop_last();
        let last = bindings.len() - 1;
        lemma_first_exists(front, device_id);
        if let Some(i) = first_for_device(front, device_id) {
            assert(is_first_for_device(front, device_id, i));
            assert(bindings[i] == front[i]);
            assert forall|j: int| 0 <= j < i implies !same_device(
                (#[trigger] bindings[j]).device_id,
                device_id,
            ) by {
                assert(bindings[j] == front[j]);
            }
            assert(is_first_for_device(bindings, device_id, i));
            lemma_first_for_device_is(bindings, device_id, i);
        } else {
            assert forall|j: int| 0 <= j < last implies !same_device(
                (#[trigger] bindings[j]).device_id,
                device_id,
            ) by {
                assert(bindings[j] == front[j]);
            }
            if same_device(bindings[last].device_id, device_id) {
                assert(is_first_for_device(bindings, device_id, last));
                lemma_first_for_device_is(bindings, device_id, last);
            } else {
                lemma_first_for_device_none(bindings, device_id);
            }
        }
    }
}

/// Whether `i` is the index of the first binding with the identifier `id`.
pub open spec fn is_first_with_id(bindings: Seq<DeviceBindingView>, id: Seq<char>, i: int) -> bool {
    &&& 0 <= i < bindings.len()
    &&& bindings[i].id == id
    &&& forall|j: int| 0 <= j < i ==> (#[trigger] bindings[j]).id != id
}

/// The first binding with the identifier `id`.
pub open spec fn binding_with_id(bindings: Seq<DeviceBindingView>, id: Seq<char>) -> Option<
    DeviceBindingView,
> {
    if exists|i: int| is_first_with_id(bindings, id, i) {
        Some(bindings[choose|i: int| is_first_with_id(bindings, id, i)])
    } else {
        None
    }
}

/// The bindings after one is saved: it takes the place of the first binding for the same
/// device, or goes to the end where there is none. A binding whose device identifier
/// names no device is for no device and always goes to the end.
pub open spec fn bindings_after_save(bindings: Seq<DeviceBindingView>, saved: DeviceBindingView) -> Seq<
    DeviceBindingView,
> {
    match first_for_device(bindings, saved.device_id) {
        Some(i) => bindings.update(i, saved),
        None => bindings.push(saved),
    }
}

/// The bindings without those that carry the identifier `id`.
pub open spec fn bindings_without(bindings: Seq<DeviceBindingView>, id: Seq<char>) -> Seq<
    DeviceBindingView,
> {
    bindings.filter(|b: DeviceBindingView| b.id != id)
}

/// The number of entries that a request for the log returns: the limit asked for, but
/// never more than the settings allow nor than there are.
pub open spec fn log_window(limit: Option<usize>, max_entries: u32, available: nat) -> nat {
    let asked = match limit {
        Some(n) => if n <= max_entries {
            n as nat
        } else {
            max_entries as nat
        },
        None => max_entries as nat,
    };
    if asked <= available {
        asked
    } else {
        available
    }
}

/// The log after one entry is added at the front and the log is cut to `max_entries`.
pub open spec fn logs_after_add(logs: Seq<LogEntryView>, entry: LogEntryView, max_entries: u32) -> Seq<
    LogEntryView,
> {
    let grown = seq![entry] + logs;
    if grown.len() > max_entries {
        grown.take(max_entries as int)
    } else {
        grown
    }
}

impl ConfigManager {
    /// What the store holds.
    pub closed spec fn view(&self) -> ConfigView {
        ConfigView {
            bindings: self.data.bindings.deep_view(),
            settings: self.data.settings,
            logs: self.logs.deep_view(),
        }
    }

    /// The store that holds what was read from the two files. A file that is missing or
    /// malformed is passed as `None` and stands for the defaults and an empty log.
    pub fn new(data: Option<ConfigData>, logs: Option<Vec<LogEntry>>) -> (r: Self)
        ensures
            r@.bindings == (match data {
                Some(d) => d@.bindings,
                None => Seq::empty(),
            }),
            r@.settings == (match data {
                Some(d) => d.settings,
                None => AppSettings::initial(),
            }),
            r@.logs == (match logs {
                Some(l) => l.deep_view(),
                None => Seq::empty(),
            }),
    {
        let data = match data {
            Some(d) => d,
            None => ConfigData::default(),
        };
        let logs = match logs {
            Some(l) => l,
            None => {
                let l: Vec<LogEntry> = Vec::new();
                assert(l.deep_view() =~= Seq::empty());
                l
            },
        };
        ConfigManager { data, logs }
    }

    /// What the configuration file is to hold.
    pub fn data(&self) -> (r: &ConfigData)
        ensures
            r@.bindings == self@.bindings,
            r@.settings == self@.settings,
    {
        &self.data
    }

    /// What the log file is to hold.
    pub fn logs(&self) -> (r: &Vec<LogEntry>)
        ensures
            r.deep_view() == self@.logs,
    {
        &self.logs
    }

    /// Every binding, in the order of the store.
    pub fn get_all_bindings(&self) -> (r: Vec<DeviceBinding>)
        ensures
            r.deep_view() == self@.bindings,
    {
        clone_bindings(&self.data.bindings)
    }

    fn position_for_device(&self, device_id: &str) -> (r: Option<usize>)
        ensures
            match r {
                Some(i) => first_for_device(self@.bindings, device_id@) == Some(i as int),
                None => first_for_device(self@.bindings, device_id@) is None,
            },
    {
        proof {
            reveal(same_device);
        }
        let wanted = match parse_device_id(device_id) {
            Some(device) => device,
            None => {
                proof {
                    lemma_first_for_device_none(self@.bindings, device_id@);
                }
                return None;
            },
        };
        let mut i: usize = 0;
        while i < self.data.bindings.len()
            invariant
                i <= self.data.bindings.len(),
                parse_device_id_spec(device_id@) == Some(wanted),
                forall|j: int|
                    0 <= j < i ==> !same_device(
                        (#[trigger] self.data.bindings.deep_view()[j]).device_id,
                        device_id@,
                    ),
            decreases self.data.bindings.len() - i,
        {
            proof {
                reveal(same_device);
            }
            let found = parse_device_id(self.data.bindings[i].device_id.as_str());
            assert(self.data.bindings.deep_view()[i as int].device_id
                == self.data.bindings[i as int].device_id@);
            let matches = match found {
                Some(device) => device.0 == wanted.0 && device.1 == wanted.1,
                None => false,
            };
            if matches {
                proof {
                    lemma_first_for_device_is(self@.bindings, device_id@, i as int);
                }
                return Some(i);
            }
            i += 1;
        }
        proof {
            lemma_first_for_device_none(self@.bindings, device_id@);
        }
        None
    }

    /// The binding for a device: the first one whose device identifier names the device
    /// that `device_id` names.
    pub fn get_binding(&self, device_id: &str) -> (r: Option<DeviceBinding>)
        ensures
            r.deep_view() == binding_for_device(self@.bindings, device_id@),
    {
        match self.position_for_device(device_id) {
            Some(i) => Some(self.data.bindings[i].clone()),
            None => None,
        }
    }

    /// Saves a binding: it takes the place of the binding for the same device, or is
    /// added where the device has none. Hands the binding back.
    pub fn save_binding(&mut self, binding: DeviceBinding) -> (r: DeviceBinding)
        ensures
            final(self)@.bindings == bindings_after_save(old(self)@.bindings, binding@),
            final(self)@.settings == old(self)@.settings,
            final(self)@.logs == old(self)@.logs,
            r@ == binding@,
    {
        let stored = binding.clone();
        match self.position_for_device(binding.device_id.as_str()) {
            Some(pos) => {
                self.data.bindings.set(pos, stored);
                assert(self.data.bindings.deep_view() =~= old(self)@.bindings.update(
                    pos as int,
                    binding@,
                ));
            },
            None => {
                self.data.bindings.push(stored);
                assert(self.data.bindings.deep_view() =~= old(self)@.bindings.push(binding@));
            },
        }
        binding
    }

    /// Deletes every binding that carries the identifier `binding_id`.
    pub fn delete_binding(&mut self, binding_id: &str)
        ensures
            final(self)@.bindings == bindings_without(old(self)@.bindings, binding_id@),
            final(self)@.settings == old(self)@.settings,
            final(self)@.logs == old(self)@.logs,
    {
        let mut kept: Vec<DeviceBinding> = Vec::new();
        let ghost all = self.data.bindings.deep_view();
        let ghost keep = |b: DeviceBindingView| b.id != binding_id@;
        let mut i: usize = 0;
        proof {
            reveal(Seq::filter);
            assert(all.take(0) =~= Seq::<DeviceBindingView>::empty());
            assert(kept.deep_view() =~= all.take(0).filter(keep));
        }
        while i < self.data.bindings.len()
            invariant
                i <= self.data.bindings.len(),
                all == self.data.bindings.deep_view(),
                keep == (|b: DeviceBindingView| b.id != binding_id@),
                kept.deep_view() == all.take(i as int).filter(keep),
            decreases self.data.bindings.len() - i,
        {
            proof {
                reveal(Seq::filter);
                assert(all.take(i + 1).drop_last() =~= all.take(i as int));
                assert(all.take(i + 1).last() == self.data.bindings[i as int]@);
            }
            if !str_eq(self.data.bindings[i].id.as_str(), binding_id) {
                let ghost before = kept.deep_view();
                kept.push(self.data.bindings[i].clone());
                assert(kept.deep_view() =~= before.push(self.data.bindings[i as int]@));
            }
            i += 1;
        }
        assert(all.take(self.data.bindings.len() as int) =~= all);
        self.data.bindings = kept;
    }

    /// The first binding that carries the identifier `binding_id`.
    pub fn get_binding_by_id(&self, binding_id: &str) -> (r: Option<DeviceBinding>)
        ensures
            r.deep_view() == binding_with_id(self@.bindings, binding_id@),
    {
        let mut i: usize = 0;
        while i < self.data.bindings.len()
            invariant
                i <= self.data.bindings.len(),
                forall|j: int|
                    0 <= j < i ==> (#[trigger] self.data.bindings.deep_view()[j]).id
                        != binding_id@,
            decreases self.data.bindings.len() - i,
        {
            if str_eq(self.data.bindings[i].id.as_str(), binding_id) {
                proof {
                    let k = choose|k: int| is_first_with_id(self@.bindings, binding_id@, k);
                    assert(is_first_with_id(self@.bindings, binding_id@, i as int));
                    if k < i {
                        assert(self@.bindings[k].id != binding_id@);
                    }
                }
                return Some(self.data.bindings[i].clone());
            }
            i += 1;
        }
        None
    }

    /// The settings.
    pub fn get_settings(&self) -> (r: AppSettings)
        ensures
            r == self@.settings,
    {
        self.data.settings
    }

    /// Replaces the settings and hands them back.
    pub fn save_settings(&mut self, settings: AppSettings) -> (r: AppSettings)
        ensures
            final(self)@.settings == settings,
            final(self)@.bindings == old(self)@.bindings,
            final(self)@.logs == old(self)@.logs,
            r == settings,
    {
        self.data.settings = settings;
        settings
    }

    /// The newest entries of the log, newest first: as many as `limit` asks for, but
    /// never more than the settings allow.
    pub fn get_logs(&self, limit: Option<usize>) -> (r: Vec<LogEntry>)
        ensures
            r.deep_view() == self@.logs.take(
                log_window(limit, self@.settings.max_log_entries, self@.logs.len()) as int,
            ),
    {
        let max_entries: usize = self.data.settings.max_log_entries as usize;
        let asked: usize = match limit {
            Some(n) => if n <= max_entries {
                n
            } else {
                max_entries
            },
            None => max_entries,
        };
        let count: usize = if asked <= self.logs.len() {
            asked
        } else {
            self.logs.len()
        };
        let mut r: Vec<LogEntry> = Vec::new();
        let mut i: usize = 0;
        assert(r.deep_view() =~= self.logs.deep_view().take(0));
        while i < count
            invariant
                i <= count <= self.logs.len(),
                r.deep_view() == self.logs.deep_view().take(i as int),
            decreases count - i,
        {
            let ghost before = r.deep_view();
            r.push(self.logs[i].clone());
            assert(r.deep_view() =~= before.push(self.logs[i as int]@));
            assert(self.logs.deep_view()[i as int] == self.logs[i as int]@);
            assert(r.deep_view() =~= self.logs.deep_view().take(i + 1));
            i += 1;
        }
        r
    }

    /// Puts an entry at the front of the log and cuts the log to the length that the
    /// settings allow.
    pub fn add_entry(&mut self, entry: LogEntry)
        ensures
            final(self)@.logs == logs_after_add(
                old(self)@.logs,
                entry@,
                old(self)@.settings.max_log_entries,
            ),
            final(self)@.bindings == old(self)@.bindings,
            final(self)@.settings == old(self)@.settings,
    {
        let max_entries: usize = self.data.settings.max_log_entries as usize;
        let ghost grown = seq![entry@] + old(self)@.logs;
        self.logs.insert(0, entry);
        assert(self.logs.deep_view() =~= grown);
        if self.logs.len() > max_entries {
            self.logs.truncate(max_entries);
            assert(self.logs.deep_view() =~= grown.take(max_entries as int));
        }
    }

    /// Logs a message: a new entry of the given level, message and source goes to the
    /// front of the log, with an identifier and a time of its own, and the log is cut to
    /// the length that the settings allow.
    pub fn add_log(&mut self, level: LogEntryLevel, message: String, source: Option<String>)
        ensures
            exists|entry: LogEntryView|
                {
                    &&& entry.level == level
                    &&& entry.message == message@
                    &&& entry.source == source.deep_view()
                    &&& final(self)@.logs == #[trigger] logs_after_add(
                        old(self)@.logs,
                        entry,
                        old(self)@.settings.max_log_entries,
                    )
                },
            final(self)@.bindings == old(self)@.bindings,
            final(self)@.settings == old(self)@.settings,
    {
        let entry = LogEntry::new(level, message, source);
        let ghost shown = entry@;
        self.add_entry(entry);
        assert(self@.logs == logs_after_add(
            old(self)@.logs,
            shown,
            old(self)@.settings.max_log_entries,
        ));
    }

    /// Empties the log.
    pub fn clear_logs(&mut self)
        ensures
            final(self)@.logs == Seq::<LogEntryView>::empty(),
            final(self)@.bindings == old(self)@.bindings,
            final(self)@.settings == old(self)@.settings,
    {
        self.logs.clear();
        assert(self.logs.deep_view() =~= Seq::empty());
    }

    /// The device of every binding, in the order of the store.
    pub fn get_configured_device_ids(&self) -> (r: Vec<String>)
        ensures
            strings_view(r@) == self@.bindings.map_values(|b: DeviceBindingView| b.device_id),
    {
        let mut r: Vec<String> = Vec::new();
        let mut i: usize = 0;
        let ghost ids = self@.bindings.map_values(|b: DeviceBindingView| b.device_id);
        assert(strings_view(r@) =~= ids.take(0));
        while i < self.data.bindings.len()
            invariant
                i <= self.data.bindings.len(),
                ids == self@.bindings.map_values(|b: DeviceBindingView| b.device_id),
                strings_view(r@) == ids.take(i as int),
            decreases self.data.bindings.len() - i,
        {
            let ghost before = strings_view(r@);
            r.push(self.data.bindings[i].device_id.clone());
            assert(strings_view(r@) =~= before.push(self.data.bindings[i as int].device_id@));
            assert(ids[i as int] == self@.bindings[i as int].device_id);
            assert(strings_view(r@) =~= ids.take(i + 1));
            i += 1;
        }
        assert(ids.take(self.data.bindings.len() as int) =~= ids);
        r
    }
}

/// A copy of every binding.
pub fn clone_bindings(bindings: &Vec<DeviceBinding>) -> (r: Vec<DeviceBinding>)
    ensures
        r.deep_view() == bindings.deep_view(),
{
    let mut r: Vec<DeviceBinding> = Vec::new();
    let mut i: usize = 0;
    while i < bindings.len()
        invariant
            i <= bindings.len(),
            r.len() == i,
            forall|j: int| 0 <= j < i ==> r[j]@ == bindings[j]@,
        decreases bindings.len() - i,
    {
        r.push(bindings[i].clone());
        i += 1;
    }
    assert(r.deep_view() =~= bindings.deep_view());
    r
}

} // verus!
