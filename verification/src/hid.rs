//! The device list: what the enumeration of HID endpoints comes to for the front-end,
//! which devices are configured, and which have gone since the last look.
//!
//! The enumeration itself is the caller's part. It hands over one [`RawDeviceInfo`] per
//! endpoint, in the order of the enumeration.
//!
//! A device is its vendor and product numbers. Where a device is named by a text, the
//! text is read as two hexadecimal numbers, so that `af88:6688` and `AF88:6688` are one
//! device. The list remembers no device twice.
use vstd::prelude::*;
use vstd::string::*;
use crate::classifier::{DeviceEvent, EventOrigin};
use crate::identity::{
    canonical, canonical_string, hex4, hex4_string, lemma_canonical_round_trip,
    parse_device_id, parse_device_id_spec, same_device, DeviceIdentity,
};
use crate::text::strings_view;
use crate::types::{DeviceStatus, HidDevice, HidDeviceView, MonitoringState, MonitoringStateView};

verus! {

/// Why the device list could not answer.
#[derive(Debug)]
pub enum HidError {
    InitError(String),
    DeviceNotFound(String),
    OpenError(String),
    ReadError(String),
}

/// The view of a [`HidError`].
pub enum HidErrorView {
    InitError(Seq<char>),
    DeviceNotFound(Seq<char>),
    OpenError(Seq<char>),
    ReadError(Seq<char>),
}

impl View for HidError {
    type V = HidErrorView;

    open spec fn view(&self) -> HidErrorView {
        match self {
            HidError::InitError(m) => HidErrorView::InitError(m@),
            HidError::DeviceNotFound(m) => HidErrorView::DeviceNotFound(m@),
            HidError::OpenError(m) => HidErrorView::OpenError(m@),
            HidError::ReadError(m) => HidErrorView::ReadError(m@),
        }
    }
}

/// The message of an error, as the front-end shows it.
pub open spec fn hid_error_message(e: HidErrorView) -> Seq<char> {
    match e {
        HidErrorView::InitError(m) => "Failed to initialize HID API: "@ + m,
        HidErrorView::DeviceNotFound(m) => "Device not found: "@ + m,
        HidErrorView::OpenError(m) => "Failed to open device: "@ + m,
        HidErrorView::ReadError(m) => "Read error: "@ + m,
    }
}

impl HidError {
    /// The message of the error, as the front-end shows it.
    pub fn message(&self) -> (m: String)
        ensures
            m@ == hid_error_message(self@),
    {
        match self {
            HidError::InitError(detail) => {
                let mut m = "Failed to initialize HID API: ".to_owned();
                m.append(detail.as_str());
                m
            },
            HidError::DeviceNotFound(detail) => {
                let mut m = "Device not found: ".to_owned();
                m.append(detail.as_str());
                m
            },
            HidError::OpenError(detail) => {
                let mut m = "Failed to open device: ".to_owned();
                m.append(detail.as_str());
                m
            },
            HidError::ReadError(detail) => {
                let mut m = "Read error: ".to_owned();
                m.append(detail.as_str());
                m
            },
        }
    }
}

/// One HID endpoint as the enumeration reports it.
#[derive(Debug)]
pub struct RawDeviceInfo {
    pub vendor_id: u16,
    pub product_id: u16,
    pub product_string: Option<String>,
    pub manufacturer_string: Option<String>,
    pub serial_number: Option<String>,
    pub interface_number: i32,
}

/// The view of a [`RawDeviceInfo`].
pub struct RawDeviceInfoView {
    pub vendor_id: u16,
    pub product_id: u16,
    pub product_string: Option<Seq<char>>,
    pub manufacturer_string: Option<Seq<char>>,
    pub serial_number: Option<Seq<char>>,
    pub interface_number: i32,
}

impl DeepView for RawDeviceInfo {
    type V = RawDeviceInfoView;

    open spec fn deep_view(&self) -> RawDeviceInfoView {
        RawDeviceInfoView {
            vendor_id: self.vendor_id,
            product_id: self.product_id,
            product_string: self.product_string.deep_view(),
            manufacturer_string: self.manufacturer_string.deep_view(),
            serial_number: self.serial_number.deep_view(),
            interface_number: self.interface_number,
        }
    }
}

impl View for RawDeviceInfo {
    type V = RawDeviceInfoView;

    open spec fn view(&self) -> RawDeviceInfoView {
        self.deep_view()
    }
}

impl Clone for RawDeviceInfo {
    fn clone(&self) -> (r: Self)
        ensures
            r@ == self@,
    {
        RawDeviceInfo {
            vendor_id: self.vendor_id,
            product_id: self.product_id,
            product_string: self.product_string.clone(),
            manufacturer_string: self.manufacturer_string.clone(),
            serial_number: self.serial_number.clone(),
            interface_number: self.interface_number,
        }
    }
}

/// The identity of the device behind an endpoint.
pub open spec fn endpoint_identity(info: RawDeviceInfoView, identity: DeviceIdentity) -> bool {
    &&& identity.ids() == (info.vendor_id, info.product_id)
    &&& identity.serial.deep_view() == info.serial_number
    &&& identity.interface_number == Some(info.interface_number)
    &&& identity.product_name.deep_view() == info.product_string
}

impl RawDeviceInfo {
    /// The device that the front-end shows for the endpoint once it was pressed.
    pub fn to_hid_device(&self) -> (d: HidDevice)
        ensures
            d@ == describe(self@, DeviceStatus::Connected),
    {
        describe_device(self, DeviceStatus::Connected)
    }

    /// The press of the endpoint, seen at `observed_at`, as the classifier takes it.
    pub fn to_event(&self, observed_at: u64) -> (e: DeviceEvent)
        ensures
            endpoint_identity(self@, e.identity),
            e.origin == EventOrigin::HidPoll,
            e.observed_at == observed_at,
    {
        DeviceEvent {
            identity: DeviceIdentity {
                vendor_id: self.vendor_id,
                product_id: self.product_id,
                serial: self.serial_number.clone(),
                interface_number: Some(self.interface_number),
                product_name: self.product_string.clone(),
            },
            origin: EventOrigin::HidPoll,
            observed_at,
        }
    }
}

/// The low byte of an interface number, which is how the front-end shows it.
pub open spec fn interface_byte(n: i32) -> u8 {
    (n as int % 256) as u8
}

/// The device that the front-end shows for an endpoint.
pub open spec fn describe(info: RawDeviceInfoView, status: DeviceStatus) -> HidDeviceView {
    HidDeviceView {
        id: canonical(info.vendor_id, info.product_id),
        name: match info.product_string {
            Some(name) => name,
            None => "Unknown Device"@,
        },
        vendor_id: hex4(info.vendor_id),
        product_id: hex4(info.product_id),
        interface_number: interface_byte(info.interface_number),
        total_interfaces: 1,
        status,
        manufacturer: info.manufacturer_string,
        serial_number: info.serial_number,
    }
}

/// The low byte of an interface number.
pub fn low_byte(n: i32) -> (b: u8)
    ensures
        b == interface_byte(n),
{
    let m: i32 = n % 256;
    if m < 0 {
        (m + 256) as u8
    } else {
        m as u8
    }
}

/// The device that the front-end shows for an endpoint.
pub fn describe_device(info: &RawDeviceInfo, status: DeviceStatus) -> (d: HidDevice)
    ensures
        d@ == describe(info@, status),
{
    let name = match &info.product_string {
        Some(name) => name.clone(),
        None => "Unknown Device".to_owned(),
    };
    HidDevice {
        id: canonical_string(info.vendor_id, info.product_id),
        name,
        vendor_id: hex4_string(info.vendor_id),
        product_id: hex4_string(info.product_id),
        interface_number: low_byte(info.interface_number),
        total_interfaces: 1,
        status,
        manufacturer: info.manufacturer_string.clone(),
        serial_number: info.serial_number.clone(),
    }
}

/// The vendor and product numbers of an endpoint.
pub open spec fn pair_of(info: RawDeviceInfoView) -> (u16, u16) {
    (info.vendor_id, info.product_id)
}

/// The status of a device, given the configured devices.
pub open spec fn status_of(configured: Seq<(u16, u16)>, device: (u16, u16)) -> DeviceStatus {
    if configured.contains(device) {
        DeviceStatus::Configured
    } else {
        DeviceStatus::Connected
    }
}

/// The devices of an enumeration: each vendor and product pair once, in the order in
/// which the enumeration first shows it.
pub open spec fn seen(infos: Seq<RawDeviceInfoView>) -> Seq<(u16, u16)>
    decreases infos.len(),
{
    if infos.len() == 0 {
        Seq::empty()
    } else {
        let before = seen(infos.drop_last());
        if before.contains(pair_of(infos.last())) {
            before
        } else {
            before.push(pair_of(infos.last()))
        }
    }
}

/// The device list for an enumeration: one device for each vendor and product pair, the
/// one of the first endpoint that carries the pair, in the order of the enumeration.
pub open spec fn listed(infos: Seq<RawDeviceInfoView>, configured: Seq<(u16, u16)>) -> Seq<
    HidDeviceView,
>
    decreases infos.len(),
{
    if infos.len() == 0 {
        Seq::empty()
    } else {
        let before = listed(infos.drop_last(), configured);
        let device = pair_of(infos.last());
        if seen(infos.drop_last()).contains(device) {
            before
        } else {
            before.push(describe(infos.last(), status_of(configured, device)))
        }
    }
}

/// No device is seen twice, and every endpoint's device is seen.
pub proof fn lemma_seen_distinct(infos: Seq<RawDeviceInfoView>)
    ensures
        seen(infos).no_duplicates(),
        forall|k: int| 0 <= k < infos.len() ==> seen(infos).contains(pair_of(#[trigger] infos[k])),
    decreases infos.len(),
{
    if infos.len() > 0 {
        let front = infos.drop_last();
        let before = seen(front);
        let all = seen(infos);
        let device = pair_of(infos.last());
        lemma_seen_distinct(front);
        if !before.contains(device) {
            assert(all[before.len() as int] == device);
        }
        assert forall|k: int| 0 <= k < infos.len() implies all.contains(
            pair_of(#[trigger] infos[k]),
        ) by {
            if k < front.len() {
                assert(front[k] == infos[k]);
                let j = choose|j: int| 0 <= j < before.len() && before[j] == pair_of(front[k]);
                assert(all[j] == before[j]);
            } else if before.contains(device) {
                let j = choose|j: int| 0 <= j < before.len() && before[j] == device;
                assert(all[j] == before[j]);
            }
        }
    }
}

/// The device list has one device for each device seen, in the same order: it carries
/// the canonical identifier of the device and the status that the device has.
pub proof fn lemma_listed_ids(infos: Seq<RawDeviceInfoView>, configured: Seq<(u16, u16)>)
    ensures
        listed(infos, configured).len() == seen(infos).len(),
        forall|i: int|
            0 <= i < seen(infos).len() ==> {
                &&& (#[trigger] listed(infos, configured)[i]).id == canonical(
                    seen(infos)[i].0,
                    seen(infos)[i].1,
                )
                &&& listed(infos, configured)[i].status == status_of(configured, seen(infos)[i])
            },
    decreases infos.len(),
{
    if infos.len() > 0 {
        lemma_listed_ids(infos.drop_last(), configured);
    }
}

/// Different devices have different canonical identifiers.
pub proof fn lemma_canonical_injective(a: (u16, u16), b: (u16, u16))
    requires
        canonical(a.0, a.1) == canonical(b.0, b.1),
    ensures
        a == b,
{
    lemma_canonical_round_trip(a.0, a.1);
    lemma_canonical_round_trip(b.0, b.1);
}

/// No two devices of a device list carry the same identifier.
pub proof fn lemma_listed_distinct(infos: Seq<RawDeviceInfoView>, configured: Seq<(u16, u16)>)
    ensures
        forall|i: int, j: int|
            0 <= i < j < listed(infos, configured).len() ==> (#[trigger] listed(
                infos,
                configured,
            )[i]).id != (#[trigger] listed(infos, configured)[j]).id,
{
    lemma_listed_ids(infos, configured);
    lemma_seen_distinct(infos);
    let all = listed(infos, configured);
    let devices = seen(infos);
    assert forall|i: int, j: int| 0 <= i < j < all.len() implies (#[trigger] all[i]).id != (
    #[trigger] all[j]).id by {
        if all[i].id == all[j].id {
            lemma_canonical_injective(devices[i], devices[j]);
        }
    }
}

/// The canonical identifiers of the devices, in order.
pub open spec fn canonical_ids(devices: Seq<(u16, u16)>) -> Seq<Seq<char>> {
    Seq::new(devices.len(), |i: int| canonical(devices[i].0, devices[i].1))
}

/// Devices that differ one from another have identifiers that differ one from another.
pub proof fn lemma_canonical_ids_distinct(devices: Seq<(u16, u16)>)
    requires
        devices.no_duplicates(),
    ensures
        canonical_ids(devices).no_duplicates(),
{
    let ids = canonical_ids(devices);
    assert forall|i: int, j: int| 0 <= i < ids.len() && 0 <= j < ids.len() && i != j implies ids[i]
        != ids[j] by {
        if ids[i] == ids[j] {
            lemma_canonical_injective(devices[i], devices[j]);
        }
    }
}

/// The test for not being among `current`.
pub open spec fn absent_from(current: Seq<(u16, u16)>) -> spec_fn((u16, u16)) -> bool {
    |device: (u16, u16)| !current.contains(device)
}

/// The test for being another device than `device`.
pub open spec fn other_than(device: (u16, u16)) -> spec_fn((u16, u16)) -> bool {
    |d: (u16, u16)| d != device
}

/// The devices of `previous` that are not among `current`, in the order of `previous`.
pub open spec fn gone(previous: Seq<(u16, u16)>, current: Seq<(u16, u16)>) -> Seq<(u16, u16)> {
    previous.filter(absent_from(current))
}

/// The configured devices after the device that `id` names is marked. An identifier
/// that names no device marks nothing.
pub open spec fn after_configured(configured: Seq<(u16, u16)>, id: Seq<char>) -> Seq<(u16, u16)> {
    match parse_device_id_spec(id) {
        Some(device) => if configured.contains(device) {
            configured
        } else {
            configured.push(device)
        },
        None => configured,
    }
}

/// The configured devices after the device that `id` names is unmarked. An identifier
/// that names no device unmarks nothing.
pub open spec fn after_unconfigured(configured: Seq<(u16, u16)>, id: Seq<char>) -> Seq<
    (u16, u16),
> {
    match parse_device_id_spec(id) {
        Some(device) => configured.filter(other_than(device)),
        None => configured,
    }
}

/// Marking a device as configured a second time changes nothing, under whatever
/// spelling of its identifier; and a device that was marked is configured.
pub proof fn lemma_configured_idempotent(
    configured: Seq<(u16, u16)>,
    id: Seq<char>,
    again: Seq<char>,
)
    requires
        same_device(id, again),
    ensures
        after_configured(after_configured(configured, id), again) == after_configured(
            configured,
            id,
        ),
        after_configured(configured, id).contains(parse_device_id_spec(id)->0),
{
    reveal(same_device);
    let device = parse_device_id_spec(id)->0;
    if !configured.contains(device) {
        let grown = configured.push(device);
        assert(grown[configured.len() as int] == device);
    }
}

/// A device that was unmarked is not among the configured ones, and unmarking it a
/// second time changes nothing, under whatever spelling of its identifier.
pub proof fn lemma_unconfigured_idempotent(
    configured: Seq<(u16, u16)>,
    id: Seq<char>,
    again: Seq<char>,
)
    requires
        same_device(id, again),
    ensures
        !after_unconfigured(configured, id).contains(parse_device_id_spec(id)->0),
        after_unconfigured(after_unconfigured(configured, id), again) == after_unconfigured(
            configured,
            id,
        ),
{
    reveal(same_device);
    let device = parse_device_id_spec(id)->0;
    let keep = other_than(device);
    let once = configured.filter(keep);
    assert forall|i: int| 0 <= i < once.len() implies keep(#[trigger] once[i]) by {
        configured.lemma_filter_pred(keep, i);
    }
    lemma_filter_all(once, keep);
}

/// Marking keeps the configured devices free of duplicates, and so does unmarking.
pub proof fn lemma_marking_distinct(configured: Seq<(u16, u16)>, id: Seq<char>)
    requires
        configured.no_duplicates(),
    ensures
        after_configured(configured, id).no_duplicates(),
        after_unconfigured(configured, id).no_duplicates(),
{
    if let Some(device) = parse_device_id_spec(id) {
        lemma_filter_distinct(configured, other_than(device));
    }
}

/// Filtering a sequence whose every element passes changes nothing.
pub proof fn lemma_filter_all<A>(s: Seq<A>, pred: spec_fn(A) -> bool)
    requires
        forall|i: int| 0 <= i < s.len() ==> pred(#[trigger] s[i]),
    ensures
        s.filter(pred) == s,
    decreases s.len(),
{
    reveal(Seq::filter);
    if s.len() > 0 {
        lemma_filter_all(s.drop_last(), pred);
        assert(s.drop_last().push(s.last()) =~= s);
    }
}

/// Filtering a sequence without duplicates leaves no duplicates.
pub proof fn lemma_filter_distinct<A>(s: Seq<A>, pred: spec_fn(A) -> bool)
    requires
        s.no_duplicates(),
    ensures
        s.filter(pred).no_duplicates(),
    decreases s.len(),
{
    reveal(Seq::filter);
    if s.len() > 0 {
        let front = s.drop_last();
        let kept = front.filter(pred);
        assert forall|i: int, j: int| 0 <= i < front.len() && 0 <= j < front.len() && i
            != j implies front[i] != front[j] by {
            assert(front[i] == s[i] && front[j] == s[j]);
        }
        lemma_filter_distinct(front, pred);
        if kept.contains(s.last()) {
            front.lemma_filter_contains_rev(pred, s.last());
            let k = choose|k: int| 0 <= k < front.len() && front[k] == s.last();
            assert(s[k] == s[s.len() - 1]);
        }
    }
}

/// The outcome of refreshing the device list.
#[derive(Debug, Clone)]
pub struct DeviceRefreshResult {
    pub devices: Vec<HidDevice>,
    pub disconnected_ids: Vec<String>,
}

/// The device list's memory: which devices are configured, which were there at the
/// last look, and whether a find-by-press session runs. A device is remembered by its
/// vendor and product numbers, and none is remembered twice.
pub struct HidManager {
    monitoring_active: bool,
    configured_devices: Vec<(u16, u16)>,
    previous_devices: Vec<(u16, u16)>,
}

/// The view of a [`HidManager`].
pub struct HidManagerView {
    pub monitoring: bool,
    pub configured: Seq<(u16, u16)>,
    pub previous: Seq<(u16, u16)>,
}

fn has_pair(list: &Vec<(u16, u16)>, device: (u16, u16)) -> (r: bool)
    ensures
        r == list@.contains(device),
{
    let mut i: usize = 0;
    while i < list.len()
        invariant
            i <= list.len(),
            forall|j: int| 0 <= j < i ==> list@[j] != device,
        decreases list.len() - i,
    {
        if list[i].0 == device.0 && list[i].1 == device.1 {
            assert(list@[i as int] == device);
            return true;
        }
        i += 1;
    }
    false
}

impl HidManager {
    /// No device is remembered twice.
    #[verifier::type_invariant]
    spec fn distinct(&self) -> bool {
        self.configured_devices@.no_duplicates() && self.previous_devices@.no_duplicates()
    }

    /// What the device list remembers.
    pub closed spec fn view(&self) -> HidManagerView {
        HidManagerView {
            monitoring: self.monitoring_active,
            configured: self.configured_devices@,
            previous: self.previous_devices@,
        }
    }

    /// A device list that remembers nothing.
    pub fn new() -> (r: Self)
        ensures
            r@ == (HidManagerView {
                monitoring: false,
                configured: Seq::empty(),
                previous: Seq::empty(),
            }),
    {
        HidManager {
            monitoring_active: false,
            configured_devices: Vec::new(),
            previous_devices: Vec::new(),
        }
    }

    /// The devices that are marked as configured and those of the last look: no device
    /// stands twice in either.
    pub fn remembered(&self) -> (r: (Vec<(u16, u16)>, Vec<(u16, u16)>))
        ensures
            r.0@ == self@.configured,
            r.1@ == self@.previous,
            self@.configured.no_duplicates(),
            self@.previous.no_duplicates(),
    {
        proof {
            use_type_invariant(self);
        }
        (copy_pairs(&self.configured_devices), copy_pairs(&self.previous_devices))
    }

    fn scan(&self, infos: &Vec<RawDeviceInfo>) -> (r: (Vec<HidDevice>, Vec<(u16, u16)>))
        ensures
            r.0.deep_view() == listed(infos.deep_view(), self@.configured),
            r.1@ == seen(infos.deep_view()),
    {
        let mut devices: Vec<HidDevice> = Vec::new();
        let mut pairs: Vec<(u16, u16)> = Vec::new();
        let ghost all = infos.deep_view();
        let mut i: usize = 0;
        assert(all.take(0) =~= Seq::<RawDeviceInfoView>::empty());
        assert(devices.deep_view() =~= Seq::<HidDeviceView>::empty());
        while i < infos.len()
            invariant
                i <= infos.len(),
                all == infos.deep_view(),
                devices.deep_view() == listed(all.take(i as int), self@.configured),
                pairs@ == seen(all.take(i as int)),
            decreases infos.len() - i,
        {
            let info = &infos[i];
            proof {
                assert(all.take(i + 1).drop_last() =~= all.take(i as int));
                assert(all.take(i + 1).last() == info@);
            }
            let device = (info.vendor_id, info.product_id);
            if !has_pair(&pairs, device) {
                let status = if has_pair(&self.configured_devices, device) {
                    DeviceStatus::Configured
                } else {
                    DeviceStatus::Connected
                };
                let ghost shown = devices.deep_view();
                devices.push(describe_device(info, status));
                pairs.push(device);
                assert(devices.deep_view() =~= shown.push(describe(info@, status)));
            }
            i += 1;
        }
        assert(all.take(infos.len() as int) =~= all);
        (devices, pairs)
    }

    /// The device list for an enumeration. The devices of the list are remembered for
    /// the next look.
    pub fn list_devices(&mut self, infos: &Vec<RawDeviceInfo>) -> (devices: Vec<HidDevice>)
        ensures
            devices.deep_view() == listed(infos.deep_view(), old(self)@.configured),
            final(self)@.previous == seen(infos.deep_view()),
            final(self)@.previous.no_duplicates(),
            final(self)@.configured == old(self)@.configured,
            final(self)@.monitoring == old(self)@.monitoring,
    {
        proof {
            use_type_invariant(&*self);
            lemma_seen_distinct(infos.deep_view());
        }
        let (devices, pairs) = self.scan(infos);
        self.previous_devices = pairs;
        devices
    }

    /// The device list for an enumeration, and the canonical identifiers of the devices
    /// that were there at the last look and are gone now. No identifier is given twice.
    pub fn refresh_devices_with_disconnections(&mut self, infos: &Vec<RawDeviceInfo>) -> (r:
        DeviceRefreshResult)
        ensures
            r.devices.deep_view() == listed(infos.deep_view(), old(self)@.configured),
            strings_view(r.disconnected_ids@) == canonical_ids(
                gone(old(self)@.previous, seen(infos.deep_view())),
            ),
            strings_view(r.disconnected_ids@).no_duplicates(),
            final(self)@.previous == seen(infos.deep_view()),
            final(self)@.previous.no_duplicates(),
            final(self)@.configured == old(self)@.configured,
            final(self)@.monitoring == old(self)@.monitoring,
    {
        proof {
            use_type_invariant(&*self);
            lemma_seen_distinct(infos.deep_view());
        }
        let (devices, pairs) = self.scan(infos);
        let mut disconnected_ids: Vec<String> = Vec::new();
        let ghost previous = self.previous_devices@;
        let ghost absent = absent_from(pairs@);
        let ghost mut missing: Seq<(u16, u16)> = Seq::empty();
        let mut i: usize = 0;
        proof {
            reveal(Seq::filter);
            assert(previous.take(0) =~= Seq::<(u16, u16)>::empty());
            assert(strings_view(disconnected_ids@) =~= canonical_ids(missing));
        }
        while i < self.previous_devices.len()
            invariant
                i <= self.previous_devices.len(),
                previous == self.previous_devices@,
                absent == absent_from(pairs@),
                missing == previous.take(i as int).filter(absent),
                strings_view(disconnected_ids@) == canonical_ids(missing),
            decreases self.previous_devices.len() - i,
        {
            let device = self.previous_devices[i];
            proof {
                reveal(Seq::filter);
                assert(previous.take(i + 1).drop_last() =~= previous.take(i as int));
                assert(previous.take(i + 1).last() == device);
            }
            if !has_pair(&pairs, device) {
                let ghost before = strings_view(disconnected_ids@);
                disconnected_ids.push(canonical_string(device.0, device.1));
                proof {
                    missing = missing.push(device);
                    assert(strings_view(disconnected_ids@) =~= before.push(
                        canonical(device.0, device.1),
                    ));
                    assert(strings_view(disconnected_ids@) =~= canonical_ids(missing));
                }
            }
            i += 1;
        }
        proof {
            assert(previous.take(self.previous_devices.len() as int) =~= previous);
            lemma_filter_distinct(previous, absent);
            lemma_canonical_ids_distinct(missing);
        }
        self.previous_devices = pairs;
        DeviceRefreshResult { devices, disconnected_ids }
    }

    /// The same as [`HidManager::list_devices`].
    pub fn refresh_devices(&mut self, infos: &Vec<RawDeviceInfo>) -> (devices: Vec<HidDevice>)
        ensures
            devices.deep_view() == listed(infos.deep_view(), old(self)@.configured),
            final(self)@.previous == seen(infos.deep_view()),
            final(self)@.previous.no_duplicates(),
            final(self)@.configured == old(self)@.configured,
            final(self)@.monitoring == old(self)@.monitoring,
    {
        self.list_devices(infos)
    }

    /// Marks the device that `device_id` names as configured. The identifier is read as
    /// two hexadecimal numbers with a colon between them; its spelling makes no
    /// difference.
    pub fn set_device_configured(&mut self, device_id: &str)
        ensures
            final(self)@.configured == after_configured(old(self)@.configured, device_id@),
            final(self)@.configured.no_duplicates(),
            final(self)@.previous == old(self)@.previous,
            final(self)@.monitoring == old(self)@.monitoring,
    {
        proof {
            use_type_invariant(&*self);
            lemma_marking_distinct(self.configured_devices@, device_id@);
        }
        if let Some(device) = parse_device_id(device_id) {
            if !has_pair(&self.configured_devices, device) {
                let mut grown = copy_pairs(&self.configured_devices);
                grown.push(device);
                self.configured_devices = grown;
            }
        }
    }

    /// Marks the device that `device_id` names as not configured.
    pub fn set_device_unconfigured(&mut self, device_id: &str)
        ensures
            final(self)@.configured == after_unconfigured(old(self)@.configured, device_id@),
            final(self)@.configured.no_duplicates(),
            final(self)@.previous == old(self)@.previous,
            final(self)@.monitoring == old(self)@.monitoring,
    {
        proof {
            use_type_invariant(&*self);
            lemma_marking_distinct(self.configured_devices@, device_id@);
        }
        let device = match parse_device_id(device_id) {
            Some(device) => device,
            None => {
                return ;
            },
        };
        let mut kept: Vec<(u16, u16)> = Vec::new();
        let ghost all = self.configured_devices@;
        let ghost keep = other_than(device);
        let mut i: usize = 0;
        proof {
            reveal(Seq::filter);
            assert(all.take(0) =~= Seq::<(u16, u16)>::empty());
        }
        while i < self.configured_devices.len()
            invariant
                i <= self.configured_devices.len(),
                all == self.configured_devices@,
                keep == other_than(device),
                kept@ == all.take(i as int).filter(keep),
            decreases self.configured_devices.len() - i,
        {
            let entry = self.configured_devices[i];
            proof {
                reveal(Seq::filter);
                assert(all.take(i + 1).drop_last() =~= all.take(i as int));
                assert(all.take(i + 1).last() == entry);
            }
            if !(entry.0 == device.0 && entry.1 == device.1) {
                kept.push(entry);
            }
            i += 1;
        }
        assert(all.take(self.configured_devices.len() as int) =~= all);
        self.configured_devices = kept;
    }

    /// Opens a find-by-press session.
    pub fn start_monitoring(&mut self) -> (r: Result<(), HidError>)
        ensures
            r is Ok,
            final(self)@.monitoring,
            final(self)@.configured == old(self)@.configured,
            final(self)@.previous == old(self)@.previous,
    {
        proof {
            use_type_invariant(&*self);
        }
        self.monitoring_active = true;
        Ok(())
    }

    /// Closes the find-by-press session.
    pub fn stop_monitoring(&mut self)
        ensures
            !final(self)@.monitoring,
            final(self)@.configured == old(self)@.configured,
            final(self)@.previous == old(self)@.previous,
    {
        proof {
            use_type_invariant(&*self);
        }
        self.monitoring_active = false;
    }

    /// Whether a find-by-press session runs.
    pub fn is_monitoring(&self) -> (r: bool)
        ensures
            r == self@.monitoring,
    {
        self.monitoring_active
    }

    /// The state of the find-by-press session; what it has found is reported apart.
    pub fn get_monitoring_state(&self) -> (r: MonitoringState)
        ensures
            r@ == (MonitoringStateView { is_active: self@.monitoring, detected_device: None }),
    {
        MonitoringState { is_active: self.is_monitoring(), detected_device: None }
    }
}

fn copy_pairs(list: &Vec<(u16, u16)>) -> (r: Vec<(u16, u16)>)
    ensures
        r@ == list@,
{
    let mut r: Vec<(u16, u16)> = Vec::new();
    let mut i: usize = 0;
    while i < list.len()
        invariant
            i <= list.len(),
            r@ == list@.take(i as int),
        decreases list.len() - i,
    {
        r.push(list[i]);
        assert(r@ =~= list@.take(i + 1));
        i += 1;
    }
    assert(list@.take(list.len() as int) =~= list@);
    r
}

/// Whether `i` is the index of the first endpoint with the given numbers.
pub open spec fn is_first_endpoint(
    infos: Seq<RawDeviceInfoView>,
    vendor_id: u16,
    product_id: u16,
    i: int,
) -> bool {
    &&& 0 <= i < infos.len()
    &&& infos[i].vendor_id == vendor_id
    &&& infos[i].product_id == product_id
    &&& forall|j: int|
        0 <= j < i ==> !((#[trigger] infos[j]).vendor_id == vendor_id && infos[j].product_id
            == product_id)
}

/// The first endpoint with the given numbers.
pub open spec fn first_endpoint(
    infos: Seq<RawDeviceInfoView>,
    vendor_id: u16,
    product_id: u16,
) -> Option<RawDeviceInfoView> {
    if exists|i: int| is_first_endpoint(infos, vendor_id, product_id, i) {
        Some(infos[choose|i: int| is_first_endpoint(infos, vendor_id, product_id, i)])
    } else {
        None
    }
}

/// What asking for one device comes to: the device of the first endpoint that carries
/// the numbers that the identifier names, or an error that repeats the identifier.
pub open spec fn device_info_spec(
    infos: Seq<RawDeviceInfoView>,
    configured: Seq<(u16, u16)>,
    device_id: Seq<char>,
) -> Result<HidDeviceView, HidErrorView> {
    match parse_device_id_spec(device_id) {
        None => Err(HidErrorView::DeviceNotFound(device_id)),
        Some(device) => match first_endpoint(infos, device.0, device.1) {
            Some(info) => Ok(describe(info, status_of(configured, device))),
            None => Err(HidErrorView::DeviceNotFound(device_id)),
        },
    }
}

/// The view of the outcome of asking for one device.
pub open spec fn device_result_view(r: Result<HidDevice, HidError>) -> Result<
    HidDeviceView,
    HidErrorView,
> {
    match r {
        Ok(d) => Ok(d@),
        Err(e) => Err(e@),
    }
}

impl HidManager {
    /// The device with the identifier `device_id`, looked up in an enumeration. The
    /// identifier is read as two hexadecimal numbers with a colon between them.
    pub fn get_device_info(&self, device_id: &str, infos: &Vec<RawDeviceInfo>) -> (r: Result<
        HidDevice,
        HidError,
    >)
        ensures
            device_result_view(r) == device_info_spec(
                infos.deep_view(),
                self@.configured,
                device_id@,
            ),
    {
        let (vendor_id, product_id) = match parse_device_id(device_id) {
            Some(ids) => ids,
            None => {
                return Err(HidError::DeviceNotFound(device_id.to_owned()));
            },
        };
        let ghost all = infos.deep_view();
        let mut i: usize = 0;
        while i < infos.len()
            invariant
                i <= infos.len(),
                all == infos.deep_view(),
                parse_device_id_spec(device_id@) == Some((vendor_id, product_id)),
                forall|j: int|
                    0 <= j < i ==> !((#[trigger] all[j]).vendor_id == vendor_id
                        && all[j].product_id == product_id),
            decreases infos.len() - i,
        {
            let info = &infos[i];
            assert(all[i as int] == info@);
            if info.vendor_id == vendor_id && info.product_id == product_id {
                proof {
                    assert(is_first_endpoint(all, vendor_id, product_id, i as int));
                    let k = choose|k: int| is_first_endpoint(all, vendor_id, product_id, k);
                    if k < i {
                        assert(!(all[k].vendor_id == vendor_id && all[k].product_id == product_id));
                    }
                    if i < k {
                        assert(!(all[i as int].vendor_id == vendor_id && all[i as int].product_id
                            == product_id));
                    }
                }
                let status = if has_pair(&self.configured_devices, (vendor_id, product_id)) {
                    DeviceStatus::Configured
                } else {
                    DeviceStatus::Connected
                };
                return Ok(describe_device(info, status));
            }
            i += 1;
        }
        Err(HidError::DeviceNotFound(device_id.to_owned()))
    }
}

/// The pause between two passes over the endpoints, in milliseconds.
pub const POLL_PAUSE_MS: u64 = 50;

/// How long a polling source runs: until the first press, as a find-by-press session
/// does, or until it is stopped.
#[derive(Debug, Clone, Copy, PartialEq, Eq, Structural)]
pub enum PollMode {
    FirstPress,
    Continuous,
}

/// Where a polling source stands: before an enumeration, within a pass over the
/// endpoints, or at its end.
#[derive(Debug, Clone, Copy, PartialEq, Eq, Structural)]
pub enum PollPhase {
    Idle,
    Scanning,
    Stopped,
}

/// What opening an endpoint and reading from it with a timeout came to. `Read` carries
/// the number of bytes; a timeout is a read of no bytes.
#[derive(Debug, Clone, Copy, PartialEq, Eq, Structural)]
pub enum ReadOutcome {
    OpenFailed,
    ReadFailed,
    Read(usize),
}

/// What the caller reports to a polling source.
#[derive(Debug)]
pub enum PollEvent {
    /// Nothing: the source was started, or the pause is over.
    Tick,
    /// The endpoints were enumerated.
    Enumerated(Vec<RawDeviceInfo>),
    /// The HID subsystem could not be initialised.
    InitFailed,
    /// The endpoint that was to be read has been tried.
    ReadDone(ReadOutcome),
}

/// The view of a [`PollEvent`].
pub enum PollEventView {
    Tick,
    Enumerated(Seq<RawDeviceInfoView>),
    InitFailed,
    ReadDone(ReadOutcome),
}

impl View for PollEvent {
    type V = PollEventView;

    open spec fn view(&self) -> PollEventView {
        match self {
            PollEvent::Tick => PollEventView::Tick,
            PollEvent::Enumerated(infos) => PollEventView::Enumerated(infos.deep_view()),
            PollEvent::InitFailed => PollEventView::InitFailed,
            PollEvent::ReadDone(outcome) => PollEventView::ReadDone(*outcome),
        }
    }
}

/// What a polling source asks the caller to do next.
#[derive(Debug, Clone, Copy, PartialEq, Eq, Structural)]
pub enum PollAction {
    /// Initialise the HID subsystem and enumerate the endpoints.
    Enumerate,
    /// Open the endpoint at `index` of the last enumeration and read from it, waiting
    /// no longer than `timeout_ms`.
    Read { index: usize, timeout_ms: i32 },
    /// Pause for so many milliseconds.
    Sleep(u64),
    /// End: the source has stopped.
    Stop,
}

/// What one step of a polling source hands back: the endpoint that was found to have
/// been pressed, if one was, and what to do next.
#[derive(Debug)]
pub struct PollStep {
    pub detected: Option<RawDeviceInfo>,
    pub action: PollAction,
}

/// A polling source: the decisions of the loop that watches the endpoints which do not
/// show up as keyboards. The caller carries out each action and reports what came of it.
pub struct HidPoller {
    mode: PollMode,
    timeout_ms: i32,
    phase: PollPhase,
    endpoints: Vec<RawDeviceInfo>,
    next: usize,
}

/// The view of a [`HidPoller`].
pub struct PollerView {
    pub mode: PollMode,
    pub timeout_ms: i32,
    pub phase: PollPhase,
    pub endpoints: Seq<RawDeviceInfoView>,
    pub next: nat,
}

/// Whether the source waits for the endpoint at `next` to be tried.
pub open spec fn awaits_read(st: PollerView) -> bool {
    st.phase == PollPhase::Scanning && st.next < st.endpoints.len()
}

/// The state after an event is taken in, and the endpoint that the event showed to have
/// been pressed. An event that the source does not wait for changes nothing.
pub open spec fn absorb(st: PollerView, event: PollEventView) -> (
    PollerView,
    Option<RawDeviceInfoView>,
) {
    match event {
        PollEventView::Enumerated(infos) if st.phase == PollPhase::Idle => (
            PollerView { phase: PollPhase::Scanning, endpoints: infos, next: 0, ..st },
            None,
        ),
        PollEventView::InitFailed if st.phase == PollPhase::Idle => (
            PollerView { phase: PollPhase::Stopped, ..st },
            None,
        ),
        PollEventView::ReadDone(outcome) if awaits_read(st) => {
            let pressed = outcome matches ReadOutcome::Read(n) && n > 0;
            if pressed {
                let endpoint = st.endpoints[st.next as int];
                if st.mode == PollMode::FirstPress {
                    (PollerView { phase: PollPhase::Stopped, ..st }, Some(endpoint))
                } else {
                    (PollerView { next: st.next + 1, ..st }, Some(endpoint))
                }
            } else {
                (PollerView { next: st.next + 1, ..st }, None)
            }
        },
        _ => (st, None),
    }
}

/// What the source asks for in a state, and the state in which it waits for the answer.
/// A source that is stopped, or whose caller has withdrawn, ends. A pass that has tried
/// every endpoint is followed by a pause and a new enumeration.
pub open spec fn demand(st: PollerView, monitoring: bool) -> (PollerView, PollAction) {
    if st.phase == PollPhase::Stopped || !monitoring {
        (PollerView { phase: PollPhase::Stopped, ..st }, PollAction::Stop)
    } else if st.phase == PollPhase::Idle {
        (st, PollAction::Enumerate)
    } else if st.next < st.endpoints.len() {
        (st, PollAction::Read { index: st.next as usize, timeout_ms: st.timeout_ms })
    } else {
        (PollerView { phase: PollPhase::Idle, ..st }, PollAction::Sleep(POLL_PAUSE_MS))
    }
}

impl HidPoller {
    /// Where the source stands.
    pub closed spec fn view(&self) -> PollerView {
        PollerView {
            mode: self.mode,
            timeout_ms: self.timeout_ms,
            phase: self.phase,
            endpoints: self.endpoints.deep_view(),
            next: self.next as nat,
        }
    }

    /// A source that has not enumerated yet.
    pub fn new(mode: PollMode, timeout_ms: i32) -> (r: Self)
        ensures
            r@ == (PollerView {
                mode,
                timeout_ms,
                phase: PollPhase::Idle,
                endpoints: Seq::empty(),
                next: 0,
            }),
    {
        let r = HidPoller {
            mode,
            timeout_ms,
            phase: PollPhase::Idle,
            endpoints: Vec::new(),
            next: 0,
        };
        assert(r.endpoints.deep_view() =~= Seq::empty());
        r
    }

    /// Whether the source has ended.
    pub fn is_stopped(&self) -> (r: bool)
        ensures
            r == (self@.phase == PollPhase::Stopped),
    {
        self.phase == PollPhase::Stopped
    }

    /// One step: takes in what the caller reports, and says what to do next.
    /// `monitoring` is false once the caller has asked the source to stop.
    pub fn step(&mut self, event: PollEvent, monitoring: bool) -> (r: PollStep)
        ensures
            ({
                let (taken, pressed) = absorb(old(self)@, event@);
                let (waiting, action) = demand(taken, monitoring);
                &&& final(self)@ == waiting
                &&& r.detected.deep_view() == pressed
                &&& r.action == action
            }),
    {
        let mut detected: Option<RawDeviceInfo> = None;
        match event {
            PollEvent::Enumerated(infos) => {
                if self.phase == PollPhase::Idle {
                    self.endpoints = infos;
                    self.next = 0;
                    self.phase = PollPhase::Scanning;
                }
            },
            PollEvent::InitFailed => {
                if self.phase == PollPhase::Idle {
                    self.phase = PollPhase::Stopped;
                }
            },
            PollEvent::ReadDone(outcome) => {
                if self.phase == PollPhase::Scanning && self.next < self.endpoints.len() {
                    let pressed = match outcome {
                        ReadOutcome::Read(n) => n > 0,
                        _ => false,
                    };
                    if pressed {
                        detected = Some(self.endpoints[self.next].clone());
                    }
                    if pressed && self.mode == PollMode::FirstPress {
                        self.phase = PollPhase::Stopped;
                    } else {
                        self.next = self.next + 1;
                    }
                }
            },
            PollEvent::Tick => {},
        }
        let action = if self.phase == PollPhase::Stopped || !monitoring {
            self.phase = PollPhase::Stopped;
            PollAction::Stop
        } else if self.phase == PollPhase::Idle {
            PollAction::Enumerate
        } else if self.next < self.endpoints.len() {
            PollAction::Read { index: self.next, timeout_ms: self.timeout_ms }
        } else {
            self.phase = PollPhase::Idle;
            PollAction::Sleep(POLL_PAUSE_MS)
        };
        PollStep { detected, action }
    }
}

/// A source that has stopped stays stopped, reports no press and asks for nothing more.
pub proof fn lemma_stopped_stays(st: PollerView, event: PollEventView, monitoring: bool)
    requires
        st.phase == PollPhase::Stopped,
    ensures
        absorb(st, event) == (st, None::<RawDeviceInfoView>),
        demand(st, monitoring) == (st, PollAction::Stop),
{
}

/// A press is reported only for the endpoint that was to be read, and only when the
/// read returned at least one byte.
pub proof fn lemma_press_needs_bytes(st: PollerView, event: PollEventView)
    requires
        absorb(st, event).1 is Some,
    ensures
        awaits_read(st),
        event matches PollEventView::ReadDone(ReadOutcome::Read(n)) && n > 0,
        absorb(st, event).1 == Some(st.endpoints[st.next as int]),
{
}

/// Once the caller has withdrawn, the source ends at the next step.
pub proof fn lemma_withdrawn_stops(st: PollerView)
    ensures
        demand(st, false).1 == PollAction::Stop,
        demand(st, false).0.phase == PollPhase::Stopped,
{
}

} // verus!
