//! Device identity: the vendor and product numbers of a device, read out of the path
//! under which the operating system names it, and written back in canonical form.
use vstd::prelude::*;
use crate::text::{chars_of, lemma_split_pair, pieces_view, push_char, split, split_on};

verus! {

/// Which physical device an event came from. Two identities name the same device when
/// their vendor and product numbers agree; the other fields are diagnostic.
#[derive(Debug)]
pub struct DeviceIdentity {
    pub vendor_id: u16,
    pub product_id: u16,
    pub serial: Option<String>,
    pub interface_number: Option<i32>,
    pub product_name: Option<String>,
}

impl DeviceIdentity {
    /// The pair of numbers that identifies the device.
    pub open spec fn ids(&self) -> (u16, u16) {
        (self.vendor_id, self.product_id)
    }

    /// The identity that carries the two numbers and nothing else.
    pub fn new(vendor_id: u16, product_id: u16) -> (r: Self)
        ensures
            r.ids() == (vendor_id, product_id),
            r.serial is None,
            r.interface_number is None,
            r.product_name is None,
    {
        DeviceIdentity {
            vendor_id,
            product_id,
            serial: None,
            interface_number: None,
            product_name: None,
        }
    }

    /// The number under which tables key the device: the vendor number in the high
    /// half, the product number in the low half.
    pub open spec fn key_of(vendor_id: u16, product_id: u16) -> u32 {
        (vendor_id as int * 65536 + product_id as int) as u32
    }

    /// The number under which tables key the device.
    pub fn key(&self) -> (k: u32)
        ensures
            k == Self::key_of(self.vendor_id, self.product_id),
    {
        let v: u32 = self.vendor_id as u32;
        let p: u32 = self.product_id as u32;
        v * 65536 + p
    }

    /// The canonical text `VVVV:PPPP` of the identity.
    pub fn canonical_string(&self) -> (s: String)
        ensures
            s@ == canonical(self.vendor_id, self.product_id),
            is_canonical_form(s@),
    {
        proof {
            lemma_canonical_form(self.vendor_id, self.product_id);
        }
        canonical_string(self.vendor_id, self.product_id)
    }
}

impl Clone for DeviceIdentity {
    fn clone(&self) -> (r: Self)
        ensures
            r.ids() == self.ids(),
            r.serial.deep_view() == self.serial.deep_view(),
            r.interface_number == self.interface_number,
            r.product_name.deep_view() == self.product_name.deep_view(),
    {
        DeviceIdentity {
            vendor_id: self.vendor_id,
            product_id: self.product_id,
            serial: self.serial.clone(),
            interface_number: self.interface_number,
            product_name: self.product_name.clone(),
        }
    }
}

impl PartialEq for DeviceIdentity {
    fn eq(&self, other: &Self) -> (r: bool) {
        self.vendor_id == other.vendor_id && self.product_id == other.product_id
    }
}

impl vstd::std_specs::cmp::PartialEqSpecImpl for DeviceIdentity {
    open spec fn obeys_eq_spec() -> bool {
        true
    }

    open spec fn eq_spec(&self, other: &Self) -> bool {
        self.vendor_id == other.vendor_id && self.product_id == other.product_id
    }
}

/// The upper-case hexadecimal digit of value `d`.
pub open spec fn hex_digit(d: int) -> char {
    if d < 10 {
        (48 + d) as char
    } else {
        (55 + d) as char
    }
}

/// The value of a hexadecimal digit of either case.
pub open spec fn hex_value(c: char) -> Option<int> {
    let u = c as int;
    if 48 <= u <= 57 {
        Some(u - 48)
    } else if 65 <= u <= 70 {
        Some(u - 55)
    } else if 97 <= u <= 102 {
        Some(u - 87)
    } else {
        None
    }
}

/// Whether `c` is one of `0`-`9`, `A`-`F`.
pub open spec fn is_upper_hex(c: char) -> bool {
    let u = c as int;
    48 <= u <= 57 || 65 <= u <= 70
}

/// The four upper-case hexadecimal digits of `v`, most significant first.
pub open spec fn hex4(v: u16) -> Seq<char> {
    seq![
        hex_digit(v as int / 4096),
        hex_digit(v as int / 256 % 16),
        hex_digit(v as int / 16 % 16),
        hex_digit(v as int % 16),
    ]
}

/// The canonical text of a device: `VVVV:PPPP`.
pub open spec fn canonical(vendor_id: u16, product_id: u16) -> Seq<char> {
    hex4(vendor_id) + seq![':'] + hex4(product_id)
}

/// Whether `s` has the shape of a canonical text: four upper-case hexadecimal digits,
/// a colon, and four more.
pub open spec fn is_canonical_form(s: Seq<char>) -> bool {
    &&& s.len() == 9
    &&& s[4] == ':'
    &&& forall|i: int| 0 <= i < 9 && i != 4 ==> is_upper_hex(#[trigger] s[i])
}

/// Every canonical text has the canonical shape.
pub proof fn lemma_canonical_form(vendor_id: u16, product_id: u16)
    ensures
        is_canonical_form(canonical(vendor_id, product_id)),
{
    let s = canonical(vendor_id, product_id);
    assert(s.len() == 9);
    assert forall|i: int| 0 <= i < 9 && i != 4 implies is_upper_hex(#[trigger] s[i]) by {
        lemma_hex4_digits(vendor_id);
        lemma_hex4_digits(product_id);
        if i < 4 {
            assert(s[i] == hex4(vendor_id)[i]);
        } else {
            assert(s[i] == hex4(product_id)[i - 5]);
        }
    }
}

/// Each of the four digits of `hex4(v)` is an upper-case hexadecimal digit, and its
/// value is the matching digit of `v`.
pub proof fn lemma_hex4_digits(v: u16)
    ensures
        hex4(v).len() == 4,
        forall|i: int| 0 <= i < 4 ==> is_upper_hex(#[trigger] hex4(v)[i]),
        hex_value(hex4(v)[0]) == Some(v as int / 4096),
        hex_value(hex4(v)[1]) == Some(v as int / 256 % 16),
        hex_value(hex4(v)[2]) == Some(v as int / 16 % 16),
        hex_value(hex4(v)[3]) == Some(v as int % 16),
{
    lemma_hex_digit_value(v as int / 4096);
    lemma_hex_digit_value(v as int / 256 % 16);
    lemma_hex_digit_value(v as int / 16 % 16);
    lemma_hex_digit_value(v as int % 16);
}

/// A digit value survives being written and read back.
pub proof fn lemma_hex_digit_value(d: int)
    requires
        0 <= d < 16,
    ensures
        is_upper_hex(hex_digit(d)),
        hex_value(hex_digit(d)) == Some(d),
{
}

/// Appends the four upper-case hexadecimal digits of `v` to `s`.
pub fn push_hex4(s: &mut String, v: u16)
    ensures
        final(s)@ == old(s)@ + hex4(v),
{
    push_char(s, hex_digit_char((v / 4096) as u8));
    push_char(s, hex_digit_char((v / 256 % 16) as u8));
    push_char(s, hex_digit_char((v / 16 % 16) as u8));
    push_char(s, hex_digit_char((v % 16) as u8));
    assert(s@ =~= old(s)@ + hex4(v));
}

fn hex_digit_char(d: u8) -> (c: char)
    requires
        d < 16,
    ensures
        c == hex_digit(d as int),
{
    if d < 10 {
        (48u8 + d) as char
    } else {
        (55u8 + d) as char
    }
}

/// The four upper-case hexadecimal digits of `v` as a string.
pub fn hex4_string(v: u16) -> (s: String)
    ensures
        s@ == hex4(v),
{
    let mut s = String::new();
    push_hex4(&mut s, v);
    s
}

/// The canonical text `VVVV:PPPP` of a vendor and product number.
pub fn canonical_string(vendor_id: u16, product_id: u16) -> (s: String)
    ensures
        s@ == canonical(vendor_id, product_id),
{
    let mut s = String::new();
    push_hex4(&mut s, vendor_id);
    push_char(&mut s, ':');
    push_hex4(&mut s, product_id);
    assert(s@ =~= canonical(vendor_id, product_id));
    s
}

/// Whether `pat` stands in `s` at index `i`.
pub open spec fn occurs_at(s: Seq<char>, pat: Seq<char>, i: int) -> bool {
    &&& 0 <= i
    &&& i + pat.len() <= s.len()
    &&& s.subrange(i, i + pat.len()) == pat
}

/// Whether `i` is the first index at which `pat` stands in `s`.
pub open spec fn is_first_occurrence(s: Seq<char>, pat: Seq<char>, i: int) -> bool {
    &&& occurs_at(s, pat, i)
    &&& forall|j: int| 0 <= j < i ==> !occurs_at(s, pat, j)
}

/// The first index at which `pat` stands in `s`, if it stands anywhere.
pub open spec fn first_occurrence(s: Seq<char>, pat: Seq<char>) -> Option<int> {
    if exists|i: int| is_first_occurrence(s, pat, i) {
        Some(choose|i: int| is_first_occurrence(s, pat, i))
    } else {
        None
    }
}

/// The first occurrence is the one index that is a first occurrence.
pub proof fn lemma_first_occurrence_is(s: Seq<char>, pat: Seq<char>, i: int)
    requires
        is_first_occurrence(s, pat, i),
    ensures
        first_occurrence(s, pat) == Some(i),
{
    let k = choose|k: int| is_first_occurrence(s, pat, k);
    assert(is_first_occurrence(s, pat, k));
    if k < i {
        assert(!occurs_at(s, pat, k));
    }
    if i < k {
        assert(!occurs_at(s, pat, i));
    }
}

/// Where the pattern stands nowhere, there is no first occurrence.
pub proof fn lemma_first_occurrence_none(s: Seq<char>, pat: Seq<char>)
    requires
        forall|i: int| !occurs_at(s, pat, i),
    ensures
        first_occurrence(s, pat) is None,
{
}

/// The marker before the vendor number in a device path.
pub open spec fn vid_marker() -> Seq<char> {
    seq!['V', 'I', 'D', '_']
}

/// The marker before the product number in a device path.
pub open spec fn pid_marker() -> Seq<char> {
    seq!['P', 'I', 'D', '_']
}

/// The number that the four hexadecimal digits `s[i..i + 4]` spell, if four such digits
/// stand there.
pub open spec fn hex4_at(s: Seq<char>, i: int) -> Option<u16> {
    if 0 <= i && i + 4 <= s.len() {
        match (hex_value(s[i]), hex_value(s[i + 1]), hex_value(s[i + 2]), hex_value(s[i + 3])) {
            (Some(a), Some(b), Some(c), Some(d)) => Some((a * 4096 + b * 256 + c * 16 + d) as u16),
            _ => None,
        }
    } else {
        None
    }
}

/// The vendor and product numbers that a device path names: the four hexadecimal digits
/// behind the first `VID_` and behind the first `PID_`. A path that lacks either marker,
/// or the digits behind it, names no device.
pub open spec fn parse_vid_pid_spec(s: Seq<char>) -> Option<(u16, u16)> {
    match (first_occurrence(s, vid_marker()), first_occurrence(s, pid_marker())) {
        (Some(v), Some(p)) => match (hex4_at(s, v + 4), hex4_at(s, p + 4)) {
            (Some(vendor_id), Some(product_id)) => Some((vendor_id, product_id)),
            _ => None,
        },
        _ => None,
    }
}

/// The plainest path that names a device: `HID#VID_VVVV&PID_PPPP`, digits in upper case.
#[verifier::opaque]
pub open spec fn device_path(vendor_id: u16, product_id: u16) -> Seq<char> {
    seq!['H', 'I', 'D', '#'] + vid_marker() + hex4(vendor_id) + seq!['&'] + pid_marker() + hex4(
        product_id,
    )
}

/// The plainest path, character by character.
pub proof fn lemma_device_path_chars(vendor_id: u16, product_id: u16)
    ensures
        device_path(vendor_id, product_id).len() == 21,
        device_path(vendor_id, product_id).subrange(0, 4) == seq!['H', 'I', 'D', '#'],
        device_path(vendor_id, product_id).subrange(4, 8) == vid_marker(),
        device_path(vendor_id, product_id).subrange(8, 12) == hex4(vendor_id),
        device_path(vendor_id, product_id)[12] == '&',
        device_path(vendor_id, product_id).subrange(13, 17) == pid_marker(),
        device_path(vendor_id, product_id).subrange(17, 21) == hex4(product_id),
{
    reveal(device_path);
    let s = device_path(vendor_id, product_id);
    assert(s.subrange(0, 4) =~= seq!['H', 'I', 'D', '#']);
    assert(s.subrange(4, 8) =~= vid_marker());
    assert(s.subrange(8, 12) =~= hex4(vendor_id));
    assert(s.subrange(13, 17) =~= pid_marker());
    assert(s.subrange(17, 21) =~= hex4(product_id));
}

/// The four digits written for a number spell that number.
pub proof fn lemma_hex4_reads_back(s: Seq<char>, i: int, v: u16)
    requires
        0 <= i,
        i + 4 <= s.len(),
        s.subrange(i, i + 4) == hex4(v),
    ensures
        hex4_at(s, i) == Some(v),
{
    lemma_hex4_digits(v);
    let w = s.subrange(i, i + 4);
    assert(w[0] == s[i] && w[1] == s[i + 1] && w[2] == s[i + 2] && w[3] == s[i + 3]);
    lemma_hex_digits_sum(v);
}

/// A 16-bit number is the sum of its four hexadecimal digits, each at its weight.
proof fn lemma_hex_digits_sum(x: u16)
    ensures
        (x / 4096) * 4096 + (x / 256 % 16) * 256 + (x / 16 % 16) * 16 + x % 16 == x,
        0 <= x / 4096 < 16,
{
    assert((x / 4096) * 4096 + (x / 256 % 16) * 256 + (x / 16 % 16) * 16 + x % 16 == x) by (bit_vector);
    assert(0 <= x / 4096 < 16) by (bit_vector);
}

/// Neither marker stands in the plainest path before its place.
proof fn lemma_markers_not_earlier(vendor_id: u16, product_id: u16)
    ensures
        forall|j: int| 0 <= j < 4 ==> !occurs_at(device_path(vendor_id, product_id), vid_marker(), j),
        forall|j: int|
            0 <= j < 13 ==> !occurs_at(device_path(vendor_id, product_id), pid_marker(), j),
{
    let s = device_path(vendor_id, product_id);
    lemma_device_path_chars(vendor_id, product_id);
    lemma_hex4_digits(vendor_id);
    let head = s.subrange(0, 4);
    let vm = s.subrange(4, 8);
    let hv = s.subrange(8, 12);
    assert forall|j: int| 0 <= j < 13 implies s[j] != 'P' && (j < 4 ==> s[j] != 'V') by {
        if j < 4 {
            assert(s[j] == head[j]);
        } else if j < 8 {
            assert(s[j] == vm[j - 4]);
        } else if j < 12 {
            assert(s[j] == hv[j - 8]);
            assert(is_upper_hex(hex4(vendor_id)[j - 8]));
        }
    }
    assert forall|j: int| 0 <= j < 4 implies !occurs_at(s, vid_marker(), j) by {
        if occurs_at(s, vid_marker(), j) {
            assert(s.subrange(j, j + 4)[0] == s[j]);
        }
    }
    assert forall|j: int| 0 <= j < 13 implies !occurs_at(s, pid_marker(), j) by {
        if occurs_at(s, pid_marker(), j) {
            assert(s.subrange(j, j + 4)[0] == s[j]);
        }
    }
}

/// Round trip: the path written for a device reads back as that device, whatever its
/// vendor and product numbers.
pub proof fn lemma_parse_round_trip(vendor_id: u16, product_id: u16)
    ensures
        parse_vid_pid_spec(device_path(vendor_id, product_id)) == Some((vendor_id, product_id)),
{
    let s = device_path(vendor_id, product_id);
    lemma_device_path_chars(vendor_id, product_id);
    lemma_markers_not_earlier(vendor_id, product_id);
    lemma_first_occurrence_is(s, vid_marker(), 4);
    lemma_first_occurrence_is(s, pid_marker(), 13);
    lemma_hex4_reads_back(s, 8, vendor_id);
    lemma_hex4_reads_back(s, 17, product_id);
}

fn matches_at(s: &Vec<char>, pat: &Vec<char>, i: usize) -> (r: bool)
    requires
        i + pat.len() <= s.len(),
    ensures
        r == occurs_at(s@, pat@, i as int),
{
    let mut k: usize = 0;
    while k < pat.len()
        invariant
            k <= pat.len(),
            i + pat.len() <= s.len(),
            forall|j: int| 0 <= j < k ==> s@[i + j] == pat@[j],
        decreases pat.len() - k,
    {
        if s[i + k] != pat[k] {
            assert(s@.subrange(i as int, i + pat.len())[k as int] == s@[i + k]);
            return false;
        }
        k += 1;
    }
    assert(s@.subrange(i as int, i + pat.len()) =~= pat@);
    true
}

/// The first index at which `pat` stands in `s`.
pub fn find_first(s: &Vec<char>, pat: &Vec<char>) -> (r: Option<usize>)
    ensures
        match r {
            Some(i) => first_occurrence(s@, pat@) == Some(i as int),
            None => first_occurrence(s@, pat@) is None,
        },
{
    if pat.len() > s.len() {
        proof {
            lemma_first_occurrence_none(s@, pat@);
        }
        return None;
    }
    let last: usize = s.len() - pat.len();
    let mut i: usize = 0;
    while i < last
        invariant
            i <= last,
            last == s.len() - pat.len(),
            pat.len() <= s.len(),
            forall|j: int| 0 <= j < i ==> !occurs_at(s@, pat@, j),
        decreases last - i,
    {
        if matches_at(s, pat, i) {
            proof {
                lemma_first_occurrence_is(s@, pat@, i as int);
            }
            return Some(i);
        }
        i += 1;
    }
    if matches_at(s, pat, last) {
        proof {
            lemma_first_occurrence_is(s@, pat@, last as int);
        }
        return Some(last);
    }
    proof {
        lemma_first_occurrence_none(s@, pat@);
    }
    None
}

fn hex_value_of(c: char) -> (r: Option<u16>)
    ensures
        match r {
            Some(v) => hex_value(c) == Some(v as int),
            None => hex_value(c) is None,
        },
{
    let u: u32 = c as u32;
    if 48 <= u && u <= 57 {
        Some((u - 48) as u16)
    } else if 65 <= u && u <= 70 {
        Some((u - 55) as u16)
    } else if 97 <= u && u <= 102 {
        Some((u - 87) as u16)
    } else {
        None
    }
}

/// The number that the four hexadecimal digits at `s[i..i + 4]` spell.
pub fn read_hex4(s: &Vec<char>, i: usize) -> (r: Option<u16>)
    ensures
        r == hex4_at(s@, i as int),
{
    if i > s.len() || s.len() - i < 4 {
        return None;
    }
    match (hex_value_of(s[i]), hex_value_of(s[i + 1]), hex_value_of(s[i + 2]), hex_value_of(s[i + 3])) {
        (Some(a), Some(b), Some(c), Some(d)) => Some(a * 4096 + b * 256 + c * 16 + d),
        _ => None,
    }
}

/// Reads the vendor and product numbers out of a device path such as
/// `\\?\HID#VID_046D&PID_C534&MI_01#...`. Digits of either case are accepted.
pub fn parse_vid_pid(device_name: &str) -> (r: Option<(u16, u16)>)
    ensures
        r == parse_vid_pid_spec(device_name@),
{
    let s = chars_of(device_name);
    let vid_pat: Vec<char> = vec!['V', 'I', 'D', '_'];
    let pid_pat: Vec<char> = vec!['P', 'I', 'D', '_'];
    assert(vid_pat@ =~= vid_marker());
    assert(pid_pat@ =~= pid_marker());
    let vid_start = match find_first(&s, &vid_pat) {
        Some(i) => i,
        None => {
            return None;
        },
    };
    let pid_start = match find_first(&s, &pid_pat) {
        Some(i) => i,
        None => {
            return None;
        },
    };
    proof {
        let v = choose|i: int| is_first_occurrence(s@, vid_marker(), i);
        let p = choose|i: int| is_first_occurrence(s@, pid_marker(), i);
        assert(occurs_at(s@, vid_marker(), v));
        assert(occurs_at(s@, pid_marker(), p));
    }
    let vendor_id = match read_hex4(&s, vid_start + 4) {
        Some(v) => v,
        None => {
            return None;
        },
    };
    let product_id = match read_hex4(&s, pid_start + 4) {
        Some(p) => p,
        None => {
            return None;
        },
    };
    Some((vendor_id, product_id))
}

/// The identity that a device path names, if it names one. The path itself is kept as
/// the product name; serial and interface are not in the path.
pub fn parse_from_os_device_name(name: String) -> (r: Option<DeviceIdentity>)
    ensures
        match r {
            Some(id) => parse_vid_pid_spec(name@) == Some(id.ids()) && id.serial is None
                && id.interface_number is None && id.product_name.deep_view() == Some(name@),
            None => parse_vid_pid_spec(name@) is None,
        },
{
    match parse_vid_pid(name.as_str()) {
        Some((vendor_id, product_id)) => Some(
            DeviceIdentity {
                vendor_id,
                product_id,
                serial: None,
                interface_number: None,
                product_name: Some(name),
            },
        ),
        None => None,
    }
}

/// The number that a run of hexadecimal digits spells, most significant digit first.
pub open spec fn hex_number(s: Seq<char>) -> int
    decreases s.len(),
{
    if s.len() == 0 {
        0
    } else {
        hex_number(s.drop_last()) * 16 + match hex_value(s.last()) {
            Some(d) => d,
            None => 0,
        }
    }
}

/// Whether every character of `s` is a hexadecimal digit.
pub open spec fn all_hex(s: Seq<char>) -> bool {
    forall|i: int| 0 <= i < s.len() ==> hex_value(#[trigger] s[i]) is Some
}

/// `s` without a plus sign at its front.
pub open spec fn unsigned_digits(s: Seq<char>) -> Seq<char> {
    if s.len() > 0 && s[0] == '+' {
        s.drop_first()
    } else {
        s
    }
}

/// The 16-bit number that `s` spells in hexadecimal: one or more digits of either case,
/// with or without a plus sign in front, that come to no more than `FFFF`.
pub open spec fn parse_hex_u16_spec(s: Seq<char>) -> Option<u16> {
    let digits = unsigned_digits(s);
    if digits.len() > 0 && all_hex(digits) && hex_number(digits) <= 0xFFFF {
        Some(hex_number(digits) as u16)
    } else {
        None
    }
}

/// The number that a run of digits spells never falls when digits are added behind.
pub proof fn lemma_hex_number_grows(s: Seq<char>, n: int)
    requires
        0 <= n <= s.len(),
    ensures
        0 <= hex_number(s.take(n)) <= hex_number(s),
    decreases s.len() - n,
{
    lemma_hex_number_nonnegative(s.take(n));
    if n < s.len() {
        assert(s.take(n + 1).drop_last() =~= s.take(n));
        lemma_hex_number_grows(s, n + 1);
    } else {
        assert(s.take(n) =~= s);
    }
}

/// The number that a run of digits spells is not negative.
pub proof fn lemma_hex_number_nonnegative(s: Seq<char>)
    ensures
        0 <= hex_number(s),
    decreases s.len(),
{
    if s.len() > 0 {
        lemma_hex_number_nonnegative(s.drop_last());
    }
}

/// Reads a 16-bit number in hexadecimal.
pub fn parse_hex_u16(s: &Vec<char>) -> (r: Option<u16>)
    ensures
        r == parse_hex_u16_spec(s@),
{
    let start: usize = if s.len() > 0 && s[0] == '+' {
        1
    } else {
        0
    };
    let ghost digits = unsigned_digits(s@);
    assert(digits =~= s@.subrange(start as int, s.len() as int));
    if start == s.len() {
        return None;
    }
    let mut value: u32 = 0;
    let mut i: usize = start;
    assert(digits.take(0) =~= Seq::<char>::empty());
    while i < s.len()
        invariant
            start <= i <= s.len(),
            digits == s@.subrange(start as int, s.len() as int),
            digits == unsigned_digits(s@),
            forall|j: int| 0 <= j < i - start ==> hex_value(#[trigger] digits[j]) is Some,
            value == hex_number(digits.take(i - start)),
            value <= 0xFFFF,
        decreases s.len() - i,
    {
        proof {
            assert(digits.take(i - start + 1).drop_last() =~= digits.take(i - start));
            assert(digits.take(i - start + 1).last() == s@[i as int]);
            assert(digits[i - start] == s@[i as int]);
        }
        match hex_value_of(s[i]) {
            None => {
                assert(hex_value(digits[i - start]) is None);
                return None;
            },
            Some(d) => {
                value = value * 16 + d as u32;
                assert(value == hex_number(digits.take(i - start + 1)));
                if value > 0xFFFF {
                    proof {
                        lemma_hex_number_grows(digits, i - start + 1);
                    }
                    return None;
                }
            },
        }
        i += 1;
    }
    assert(digits.take(s.len() - start) =~= digits);
    Some(value as u16)
}

/// The vendor and product numbers that a device identifier names: two hexadecimal
/// numbers with one colon between them.
pub open spec fn parse_device_id_spec(s: Seq<char>) -> Option<(u16, u16)> {
    let parts = split(s, ':');
    if parts.len() == 2 {
        match (parse_hex_u16_spec(parts[0]), parse_hex_u16_spec(parts[1])) {
            (Some(vendor_id), Some(product_id)) => Some((vendor_id, product_id)),
            _ => None,
        }
    } else {
        None
    }
}

/// Whether two device identifiers name the same device: both name a vendor and product
/// pair, and the pairs agree. Case, leading zeros and a plus sign make no difference; an
/// identifier that names no pair names no device, not even its own.
#[verifier::opaque]
pub open spec fn same_device(a: Seq<char>, b: Seq<char>) -> bool {
    parse_device_id_spec(a) is Some && parse_device_id_spec(a) == parse_device_id_spec(b)
}

/// Reads the vendor and product numbers out of a device identifier such as `046D:C534`.
pub fn parse_device_id(device_id: &str) -> (r: Option<(u16, u16)>)
    ensures
        r == parse_device_id_spec(device_id@),
{
    let chars = chars_of(device_id);
    let parts = split_on(&chars, ':');
    if parts.len() != 2 {
        return None;
    }
    assert(pieces_view(parts@)[0] == parts@[0]@);
    assert(pieces_view(parts@)[1] == parts@[1]@);
    match (parse_hex_u16(&parts[0]), parse_hex_u16(&parts[1])) {
        (Some(vendor_id), Some(product_id)) => Some((vendor_id, product_id)),
        _ => None,
    }
}

/// The four digits written for a number read back as that number.
pub proof fn lemma_hex4_parses(v: u16)
    ensures
        parse_hex_u16_spec(hex4(v)) == Some(v),
        forall|i: int| 0 <= i < 4 ==> hex4(v)[i] != ':',
{
    let s = hex4(v);
    lemma_hex4_digits(v);
    assert forall|i: int| 0 <= i < 4 implies s[i] != ':' && s[i] != '+' by {
        assert(is_upper_hex(s[i]));
    }
    assert(unsigned_digits(s) == s);
    assert forall|i: int| 0 <= i < s.len() implies hex_value(#[trigger] s[i]) is Some by {
        assert(is_upper_hex(s[i]));
    }
    let s3 = s.drop_last();
    let s2 = s3.drop_last();
    let s1 = s2.drop_last();
    assert(s1.drop_last().len() == 0);
    assert(hex_number(s1) == hex_number(s1.drop_last()) * 16 + v as int / 4096);
    assert(hex_number(s2) == hex_number(s1) * 16 + v as int / 256 % 16);
    assert(hex_number(s3) == hex_number(s2) * 16 + v as int / 16 % 16);
    assert(hex_number(s) == hex_number(s3) * 16 + v as int % 16);
    lemma_hex_digits_sum(v);
}

/// Round trip: the canonical text of a device reads back as that device.
pub proof fn lemma_canonical_round_trip(vendor_id: u16, product_id: u16)
    ensures
        parse_device_id_spec(canonical(vendor_id, product_id)) == Some((vendor_id, product_id)),
{
    lemma_hex4_parses(vendor_id);
    lemma_hex4_parses(product_id);
    lemma_split_pair(hex4(vendor_id), hex4(product_id), ':');
}

} // verus!
