//! The raw-input source: the decisions of the window procedure and of the name lookup
//! that attribute each key press to a device.
//!
//! The window, the message loop and the queries to the operating system are the
//! caller's part. It passes in the numbers and the text that the system returns.
use vstd::prelude::*;
use vstd::string::*;
use crate::classifier::{DeviceEvent, EventOrigin};
use crate::identity::{canonical, canonical_string, hex4, hex4_string, parse_vid_pid, parse_vid_pid_spec, DeviceIdentity};
use crate::text::{
    chars_of, code_point, decimal, lemma_char_range, lemma_decimal_digits,
    lemma_decimal_injective, push_decimal,
};
use crate::types::{DeviceStatus, HidDevice, HidDeviceView};

verus! {

/// The message that announces raw input.
pub const WM_INPUT: u32 = 0x00FF;

/// The message that announces the end of the window.
pub const WM_DESTROY: u32 = 0x0002;

/// The keyboard message for a key that goes down.
pub const WM_KEYDOWN: u32 = 0x0100;

/// The keyboard message for a key that comes up.
pub const WM_KEYUP: u32 = 0x0101;

/// The keyboard message for a key that comes up while Alt is held.
pub const WM_SYSKEYUP: u32 = 0x0105;

/// The type of raw input that comes from a keyboard.
pub const RIM_TYPEKEYBOARD: u32 = 1;

/// A keyboard as raw input names it.
#[derive(Debug)]
pub struct RawInputDevice {
    pub vendor_id: u16,
    pub product_id: u16,
    pub device_handle: isize,
    pub device_name: String,
}

/// The view of a [`RawInputDevice`].
pub struct RawInputDeviceView {
    pub vendor_id: u16,
    pub product_id: u16,
    pub device_handle: isize,
    pub device_name: Seq<char>,
}

impl View for RawInputDevice {
    type V = RawInputDeviceView;

    open spec fn view(&self) -> RawInputDeviceView {
        RawInputDeviceView {
            vendor_id: self.vendor_id,
            product_id: self.product_id,
            device_handle: self.device_handle,
            device_name: self.device_name@,
        }
    }
}

impl Clone for RawInputDevice {
    fn clone(&self) -> (r: Self)
        ensures
            r@ == self@,
    {
        RawInputDevice {
            vendor_id: self.vendor_id,
            product_id: self.product_id,
            device_handle: self.device_handle,
            device_name: self.device_name.clone(),
        }
    }
}

/// The keyboard that a device path names, if the path names a device.
pub open spec fn named_device(device_handle: isize, device_name: Seq<char>) -> Option<
    RawInputDeviceView,
> {
    match parse_vid_pid_spec(device_name) {
        Some((vendor_id, product_id)) => Some(
            RawInputDeviceView { vendor_id, product_id, device_handle, device_name },
        ),
        None => None,
    }
}

/// The device that the front-end shows for a keyboard of raw input.
pub open spec fn shown_device(device: RawInputDeviceView) -> HidDeviceView {
    HidDeviceView {
        id: canonical(device.vendor_id, device.product_id),
        name: device.device_name,
        vendor_id: hex4(device.vendor_id),
        product_id: hex4(device.product_id),
        interface_number: 0,
        total_interfaces: 1,
        status: DeviceStatus::Connected,
        manufacturer: None,
        serial_number: None,
    }
}

/// The view of a keyboard that may be absent.
pub open spec fn device_option_view(r: Option<RawInputDevice>) -> Option<RawInputDeviceView> {
    match r {
        Some(d) => Some(d@),
        None => None,
    }
}

impl RawInputDevice {
    /// The keyboard behind a handle, given the device path that the system returned for
    /// the handle. A path that names no device yields nothing, and the press is dropped.
    pub fn from_device_name(device_handle: isize, device_name: String) -> (r: Option<Self>)
        ensures
            device_option_view(r) == named_device(device_handle, device_name@),
    {
        match parse_vid_pid(device_name.as_str()) {
            Some((vendor_id, product_id)) => Some(
                RawInputDevice { vendor_id, product_id, device_handle, device_name },
            ),
            None => None,
        }
    }

    /// The device that the front-end shows for the keyboard.
    pub fn to_hid_device(&self) -> (d: HidDevice)
        ensures
            d@ == shown_device(self@),
    {
        HidDevice {
            id: canonical_string(self.vendor_id, self.product_id),
            name: self.device_name.clone(),
            vendor_id: hex4_string(self.vendor_id),
            product_id: hex4_string(self.product_id),
            interface_number: 0,
            total_interfaces: 1,
            status: DeviceStatus::Connected,
            manufacturer: None,
            serial_number: None,
        }
    }

    /// The press of the keyboard, seen at `observed_at`, as the classifier takes it.
    pub fn to_event(&self, observed_at: u64) -> (e: DeviceEvent)
        ensures
            e.identity.ids() == (self.vendor_id, self.product_id),
            e.identity.serial is None,
            e.identity.interface_number is None,
            e.identity.product_name.deep_view() == Some(self.device_name@),
            e.origin == EventOrigin::RawInput,
            e.observed_at == observed_at,
    {
        DeviceEvent {
            identity: DeviceIdentity {
                vendor_id: self.vendor_id,
                product_id: self.product_id,
                serial: None,
                interface_number: None,
                product_name: Some(self.device_name.clone()),
            },
            origin: EventOrigin::RawInput,
            observed_at,
        }
    }
}

/// What a window message asks of the window procedure.
#[derive(Debug, Clone, Copy, PartialEq, Eq, Structural)]
pub enum WindowMessage {
    /// Raw input has arrived and is to be read.
    Input,
    /// The window ends: the message loop is to be told to quit.
    Destroy,
    /// Anything else goes to the default procedure.
    Other,
}

/// Sorts a window message.
pub fn classify_message(msg: u32) -> (r: WindowMessage)
    ensures
        r == (if msg == WM_INPUT {
            WindowMessage::Input
        } else if msg == WM_DESTROY {
            WindowMessage::Destroy
        } else {
            WindowMessage::Other
        }),
{
    if msg == WM_INPUT {
        WindowMessage::Input
    } else if msg == WM_DESTROY {
        WindowMessage::Destroy
    } else {
        WindowMessage::Other
    }
}

/// Whether a query for a size succeeded: the system returns zero.
pub fn size_query_succeeded(result: u32) -> (r: bool)
    ensures
        r == (result == 0),
{
    result == 0
}

/// Whether a query for data succeeded: the system returns the largest number on failure.
pub fn data_query_succeeded(result: u32) -> (r: bool)
    ensures
        r == (result != u32::MAX),
{
    result != u32::MAX
}

/// Whether the message loop goes on after the system's answer to a wait for a
/// message: it ends on an error, which is -1, and on the request to quit, which is 0.
pub fn message_loop_continues(answer: i32) -> (r: bool)
    ensures
        r == (answer != -1 && answer != 0),
{
    answer != -1 && answer != 0
}

/// Which keys are held down, device by device. A key that is reported down while it is
/// held is repeating and is no new press.
pub struct KeyTracker {
    down: Vec<(isize, u16)>,
}

/// The test for being another key than `key`.
pub open spec fn other_key(key: (isize, u16)) -> spec_fn((isize, u16)) -> bool {
    |k: (isize, u16)| k != key
}

/// The keys that are held after a keyboard message about the key `key` of the device
/// behind `handle`: a key that goes down is held from then on, a key that comes up is
/// held no more.
pub open spec fn held_after(
    held: Seq<(isize, u16)>,
    handle: isize,
    key: u16,
    input_type: u32,
    message: u32,
) -> Seq<(isize, u16)> {
    if input_type != RIM_TYPEKEYBOARD {
        held
    } else if message == WM_KEYDOWN {
        if held.contains((handle, key)) {
            held
        } else {
            held.push((handle, key))
        }
    } else if message == WM_KEYUP || message == WM_SYSKEYUP {
        held.filter(other_key((handle, key)))
    } else {
        held
    }
}

/// Whether a keyboard message is a press: a key of a keyboard goes down that was not
/// held.
pub open spec fn is_press(
    held: Seq<(isize, u16)>,
    handle: isize,
    key: u16,
    input_type: u32,
    message: u32,
) -> bool {
    input_type == RIM_TYPEKEYBOARD && message == WM_KEYDOWN && !held.contains((handle, key))
}

impl KeyTracker {
    /// The keys that are held, in the order in which they went down.
    pub closed spec fn held(&self) -> Seq<(isize, u16)> {
        self.down@
    }

    /// A tracker for which no key is held.
    pub fn new() -> (r: Self)
        ensures
            r.held() == Seq::<(isize, u16)>::empty(),
    {
        KeyTracker { down: Vec::new() }
    }

    /// Takes one message of raw input about the key `key` of the device behind
    /// `handle`, and says whether it is a press to be reported.
    pub fn on_keyboard_input(&mut self, handle: isize, key: u16, input_type: u32, message: u32) -> (r:
        bool)
        ensures
            r == is_press(old(self).held(), handle, key, input_type, message),
            final(self).held() == held_after(old(self).held(), handle, key, input_type, message),
    {
        if input_type != RIM_TYPEKEYBOARD {
            return false;
        }
        if message == WM_KEYDOWN {
            let mut i: usize = 0;
            while i < self.down.len()
                invariant
                    i <= self.down.len(),
                    input_type == RIM_TYPEKEYBOARD,
                    message == WM_KEYDOWN,
                    self.down@ == old(self).down@,
                    forall|j: int| 0 <= j < i ==> self.down@[j] != (handle, key),
                decreases self.down.len() - i,
            {
                if self.down[i].0 == handle && self.down[i].1 == key {
                    assert(self.down@[i as int] == (handle, key));
                    assert(self.down@.contains((handle, key)));
                    return false;
                }
                i += 1;
            }
            self.down.push((handle, key));
            true
        } else if message == WM_KEYUP || message == WM_SYSKEYUP {
            let mut kept: Vec<(isize, u16)> = Vec::new();
            let ghost all = self.down@;
            let ghost keep = other_key((handle, key));
            let mut i: usize = 0;
            proof {
                reveal(Seq::filter);
                assert(all.take(0) =~= Seq::<(isize, u16)>::empty());
            }
            while i < self.down.len()
                invariant
                    i <= self.down.len(),
                    self.down@ == old(self).down@,
                    all == self.down@,
                    keep == other_key((handle, key)),
                    kept@ == all.take(i as int).filter(keep),
                decreases self.down.len() - i,
            {
                let entry = self.down[i];
                proof {
                    reveal(Seq::filter);
                    assert(all.take(i + 1).drop_last() =~= all.take(i as int));
                    assert(all.take(i + 1).last() == entry);
                }
                if !(entry.0 == handle && entry.1 == key) {
                    kept.push(entry);
                }
                i += 1;
            }
            assert(all.take(self.down.len() as int) =~= all);
            self.down = kept;
            false
        } else {
            false
        }
    }
}

/// A key that has come up is held no more, and a second report that it has come up
/// changes nothing.
pub proof fn lemma_released(held: Seq<(isize, u16)>, handle: isize, key: u16)
    ensures
        !held_after(held, handle, key, RIM_TYPEKEYBOARD, WM_KEYUP).contains((handle, key)),
        held_after(
            held_after(held, handle, key, RIM_TYPEKEYBOARD, WM_KEYUP),
            handle,
            key,
            RIM_TYPEKEYBOARD,
            WM_KEYUP,
        ) == held_after(held, handle, key, RIM_TYPEKEYBOARD, WM_KEYUP),
{
    let keep = other_key((handle, key));
    let once = held.filter(keep);
    assert forall|i: int| 0 <= i < once.len() implies keep(#[trigger] once[i]) by {
        held.lemma_filter_pred(keep, i);
    }
    crate::hid::lemma_filter_all(once, keep);
}

/// A key that is reported down again while it is held is no press, and a key that went
/// down is held.
pub proof fn lemma_repeat_is_no_press(held: Seq<(isize, u16)>, handle: isize, key: u16)
    ensures
        held_after(held, handle, key, RIM_TYPEKEYBOARD, WM_KEYDOWN).contains((handle, key)),
        !is_press(
            held_after(held, handle, key, RIM_TYPEKEYBOARD, WM_KEYDOWN),
            handle,
            key,
            RIM_TYPEKEYBOARD,
            WM_KEYDOWN,
        ),
{
    if !held.contains((handle, key)) {
        assert(held.push((handle, key))[held.len() as int] == (handle, key));
    }
}

/// The UTF-16 code units of one character.
pub open spec fn utf16_of(c: char) -> Seq<u16> {
    let u = c as int;
    if u < 0x10000 {
        seq![u as u16]
    } else {
        seq![(0xD800 + (u - 0x10000) / 0x400) as u16, (0xDC00 + (u - 0x10000) % 0x400) as u16]
    }
}

/// The UTF-16 code units of a text.
pub open spec fn utf16(s: Seq<char>) -> Seq<u16>
    decreases s.len(),
{
    if s.len() == 0 {
        Seq::empty()
    } else {
        utf16(s.drop_last()) + utf16_of(s.last())
    }
}

/// The name of the window class of the `counter`-th monitor of the process.
pub open spec fn class_name_text(counter: u32) -> Seq<char> {
    "RawInputMonitorClass_"@ + decimal(counter as nat)
}

/// Whether every character of `s` is one UTF-16 code unit.
pub open spec fn is_one_unit_each(s: Seq<char>) -> bool {
    forall|i: int| 0 <= i < s.len() ==> ((#[trigger] s[i]) as int) < 0x10000
}

/// A text of characters that are one code unit each has one code unit for each
/// character, namely the character's code point.
pub proof fn lemma_utf16_unit_each(s: Seq<char>)
    requires
        is_one_unit_each(s),
    ensures
        utf16(s).len() == s.len(),
        forall|i: int| 0 <= i < s.len() ==> (#[trigger] utf16(s)[i]) as int == s[i] as int,
    decreases s.len(),
{
    if s.len() > 0 {
        let front = s.drop_last();
        assert forall|i: int| 0 <= i < front.len() implies ((#[trigger] front[i]) as int)
            < 0x10000 by {
            assert(front[i] == s[i]);
        }
        lemma_utf16_unit_each(front);
        assert forall|i: int| 0 <= i < s.len() implies (#[trigger] utf16(s)[i]) as int
            == s[i] as int by {
            let unit = utf16_of(s.last());
            lemma_char_range(s.last());
            assert(s[s.len() - 1] == s.last());
            assert(unit =~= seq![(s.last() as int) as u16]);
            assert(utf16(s) == utf16(front) + unit);
            if i < front.len() {
                assert(utf16(s)[i] == utf16(front)[i]);
                assert(front[i] == s[i]);
            } else {
                assert(utf16(s)[i] == unit[0]);
            }
        }
    }
}

/// The name of a window class is made of characters that are one code unit each.
pub proof fn lemma_class_name_units(counter: u32)
    ensures
        is_one_unit_each(class_name_text(counter)),
        class_name_text(counter).len() == 21 + decimal(counter as nat).len(),
{
    reveal_strlit("RawInputMonitorClass_");
    lemma_decimal_digits(counter as nat);
    let prefix = "RawInputMonitorClass_"@;
    let text = class_name_text(counter);
    assert forall|i: int| 0 <= i < text.len() implies ((#[trigger] text[i]) as int) < 0x10000 by {
        if i < 21 {
            assert(text[i] == prefix[i]);
        } else {
            assert(text[i] == decimal(counter as nat)[i - 21]);
        }
    }
}

/// Monitors with different counters get window classes with different names.
pub proof fn lemma_class_names_differ(a: u32, b: u32)
    requires
        a != b,
    ensures
        utf16(class_name_text(a)) + seq![0u16] != utf16(class_name_text(b)) + seq![0u16],
{
    let ta = class_name_text(a);
    let tb = class_name_text(b);
    let na = utf16(ta) + seq![0u16];
    let nb = utf16(tb) + seq![0u16];
    if na == nb {
        lemma_class_name_units(a);
        lemma_class_name_units(b);
        lemma_utf16_unit_each(ta);
        lemma_utf16_unit_each(tb);
        assert(na.len() == ta.len() + 1);
        assert(nb.len() == tb.len() + 1);
        let da = decimal(a as nat);
        let db = decimal(b as nat);
        assert(da.len() == db.len());
        assert forall|i: int| 0 <= i < da.len() implies da[i] == db[i] by {
            assert(ta[21 + i] == da[i]);
            assert(tb[21 + i] == db[i]);
            assert(na[21 + i] == utf16(ta)[21 + i]);
            assert(nb[21 + i] == utf16(tb)[21 + i]);
            assert(utf16(ta)[21 + i] as int == ta[21 + i] as int);
            assert(utf16(tb)[21 + i] as int == tb[21 + i] as int);
        }
        assert(da =~= db);
        lemma_decimal_injective(a as nat, b as nat);
    }
}

/// The name of the window class of the `counter`-th monitor of the process, as the
/// operating system takes it: in UTF-16, with a zero at the end.
pub fn window_class_name(counter: u32) -> (name: Vec<u16>)
    ensures
        name@ == utf16(class_name_text(counter)) + seq![0u16],
{
    let mut text = "RawInputMonitorClass_".to_owned();
    push_decimal(&mut text, counter as u64);
    let chars = chars_of(text.as_str());
    let mut name: Vec<u16> = Vec::new();
    let mut i: usize = 0;
    assert(chars@.take(0) =~= Seq::<char>::empty());
    while i < chars.len()
        invariant
            i <= chars.len(),
            name@ == utf16(chars@.take(i as int)),
        decreases chars.len() - i,
    {
        let u: u32 = code_point(chars[i]);
        proof {
            assert(chars@.take(i + 1).drop_last() =~= chars@.take(i as int));
            assert(chars@.take(i + 1).last() == chars@[i as int]);
        }
        let ghost before = name@;
        if u < 0x10000 {
            name.push(u as u16);
            assert(name@ =~= before + utf16_of(chars@[i as int]));
        } else {
            assert(u <= 0x10FFFF) by {
                vstd::utf8::char_is_scalar(chars@[i as int]);
            }
            let v: u32 = u - 0x10000;
            name.push((0xD800 + v / 0x400) as u16);
            name.push((0xDC00 + v % 0x400) as u16);
            assert(name@ =~= before + utf16_of(chars@[i as int]));
        }
        i += 1;
    }
    assert(chars@.take(chars.len() as int) =~= chars@);
    name.push(0);
    name
}

} // verus!
