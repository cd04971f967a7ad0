//! Hotkey synthesis: reading a chord such as `Ctrl+Shift+V` into virtual-key codes and
//! laying out the batch of key events that presses and releases it.
//!
//! The batch is handed to the caller, who submits it to the operating system and reports
//! back how many events were taken.
use vstd::prelude::*;
use vstd::string::*;
use crate::text::{
    chars_of, code_point, decimal, pieces_view, push_char, push_decimal, split, split_on, str_eq,
    trim, trimmed, uppercase,
};

verus! {

/// The family of operating system that the daemon runs on.
#[derive(Debug, Clone, Copy, PartialEq, Eq, Structural)]
pub enum Platform {
    Windows,
    Other,
}

/// Why a hotkey was not delivered.
#[derive(Debug)]
pub enum HotkeyError {
    /// The chord names a key that is not known, or no key at all.
    InvalidChord(String),
    /// Key events cannot be synthesised on this platform.
    Unsupported,
    /// The operating system took fewer events than were submitted.
    Failed(String),
}

/// The view of a [`HotkeyError`].
pub enum HotkeyErrorView {
    InvalidChord(Seq<char>),
    Unsupported,
    Failed(Seq<char>),
}

impl View for HotkeyError {
    type V = HotkeyErrorView;

    open spec fn view(&self) -> HotkeyErrorView {
        match self {
            HotkeyError::InvalidChord(m) => HotkeyErrorView::InvalidChord(m@),
            HotkeyError::Unsupported => HotkeyErrorView::Unsupported,
            HotkeyError::Failed(m) => HotkeyErrorView::Failed(m@),
        }
    }
}

/// The message of an error, as the log shows it.
pub open spec fn error_message(e: HotkeyErrorView) -> Seq<char> {
    match e {
        HotkeyErrorView::InvalidChord(m) => m,
        HotkeyErrorView::Unsupported => "Hotkey simulation is only supported on Windows"@,
        HotkeyErrorView::Failed(m) => m,
    }
}

impl HotkeyError {
    /// The message of the error, as the log shows it.
    pub fn message(&self) -> (m: String)
        ensures
            m@ == error_message(self@),
    {
        match self {
            HotkeyError::InvalidChord(m) => m.clone(),
            HotkeyError::Unsupported => "Hotkey simulation is only supported on Windows".to_owned(),
            HotkeyError::Failed(m) => m.clone(),
        }
    }
}

/// One key event of a batch: the key, and whether it goes down or comes up.
#[derive(Debug, Clone, Copy, PartialEq, Eq, Structural)]
pub struct KeyInput {
    pub virtual_key: u16,
    pub key_up: bool,
}

/// The virtual-key code of the Control key.
pub const VK_CONTROL: u16 = 0x11;

/// The virtual-key code of the Alt key.
pub const VK_MENU: u16 = 0x12;

/// The virtual-key code of the Shift key.
pub const VK_SHIFT: u16 = 0x10;

/// The virtual-key code of the left Windows key.
pub const VK_LWIN: u16 = 0x5B;

/// The virtual-key code of `F1`; the other function keys follow it.
pub const VK_F1: u16 = 0x70;

/// The names of the modifier keys, in upper case, each with its code.
pub open spec fn modifier_keys() -> Seq<(Seq<char>, u16)> {
    seq![
        ("CTRL"@, VK_CONTROL),
        ("CONTROL"@, VK_CONTROL),
        ("ALT"@, VK_MENU),
        ("SHIFT"@, VK_SHIFT),
        ("WIN"@, VK_LWIN),
        ("WINDOWS"@, VK_LWIN),
        ("META"@, VK_LWIN),
    ]
}

/// The name of the `i`-th function key: `F` and the decimal numeral of `i`.
pub open spec fn function_key_name(i: nat) -> Seq<char> {
    seq!['F'] + decimal(i)
}

/// The function keys `F1` to `Fn`, each with its code.
pub open spec fn function_keys(n: nat) -> Seq<(Seq<char>, u16)>
    decreases n,
{
    if n == 0 {
        Seq::empty()
    } else {
        function_keys((n - 1) as nat).push((function_key_name(n), (VK_F1 + n - 1) as u16))
    }
}

/// The names of the editing and navigation keys, in upper case, each with its code.
pub open spec fn special_keys() -> Seq<(Seq<char>, u16)> {
    seq![
        ("ENTER"@, 0x0Du16),
        ("RETURN"@, 0x0Du16),
        ("TAB"@, 0x09u16),
        ("ESCAPE"@, 0x1Bu16),
        ("ESC"@, 0x1Bu16),
        ("SPACE"@, 0x20u16),
        ("BACKSPACE"@, 0x08u16),
        ("DELETE"@, 0x2Eu16),
        ("DEL"@, 0x2Eu16),
        ("INSERT"@, 0x2Du16),
        ("INS"@, 0x2Du16),
        ("HOME"@, 0x24u16),
        ("END"@, 0x23u16),
        ("PAGEUP"@, 0x21u16),
        ("PAGEDOWN"@, 0x22u16),
        ("UP"@, 0x26u16),
        ("DOWN"@, 0x28u16),
        ("LEFT"@, 0x25u16),
        ("RIGHT"@, 0x27u16),
        ("PRINTSCREEN"@, 0x2Cu16),
        ("PRTSC"@, 0x2Cu16),
        ("PAUSE"@, 0x13u16),
        ("CAPSLOCK"@, 0x14u16),
        ("NUMLOCK"@, 0x90u16),
        ("SCROLLLOCK"@, 0x91u16),
    ]
}

/// The names of the media keys, in upper case, each with its code.
pub open spec fn media_keys() -> Seq<(Seq<char>, u16)> {
    seq![
        ("VOLUMEUP"@, 0xAFu16),
        ("VOLUMEDOWN"@, 0xAEu16),
        ("VOLUMEMUTE"@, 0xADu16),
        ("MUTE"@, 0xADu16),
        ("PLAYPAUSE"@, 0xB3u16),
        ("STOP"@, 0xB2u16),
        ("NEXTTRACK"@, 0xB0u16),
        ("PREVTRACK"@, 0xB1u16),
    ]
}

/// Every named key, in upper case, with its code.
pub open spec fn key_table() -> Seq<(Seq<char>, u16)> {
    modifier_keys() + function_keys(24) + special_keys() + media_keys()
}

/// The names and codes that a table of keys holds.
pub open spec fn table_view(table: Seq<(String, u16)>) -> Seq<(Seq<char>, u16)> {
    Seq::new(table.len(), |i: int| (table[i].0@, table[i].1))
}

/// The code of the first entry of `table` under `name`.
pub open spec fn lookup(table: Seq<(Seq<char>, u16)>, name: Seq<char>) -> Option<u16>
    decreases table.len(),
{
    if table.len() == 0 {
        None
    } else if table[0].0 == name {
        Some(table[0].1)
    } else {
        lookup(table.drop_first(), name)
    }
}

fn add_key(map: &mut Vec<(String, u16)>, name: &str, code: u16)
    ensures
        table_view(final(map)@) == table_view(old(map)@).push((name@, code)),
{
    map.push((name.to_owned(), code));
    assert(table_view(map@) =~= table_view(old(map)@).push((name@, code)));
}

fn add_modifier_keys(map: &mut Vec<(String, u16)>)
    ensures
        table_view(final(map)@) == table_view(old(map)@) + modifier_keys(),
{
    add_key(map, "CTRL", VK_CONTROL);
    add_key(map, "CONTROL", VK_CONTROL);
    add_key(map, "ALT", VK_MENU);
    add_key(map, "SHIFT", VK_SHIFT);
    add_key(map, "WIN", VK_LWIN);
    add_key(map, "WINDOWS", VK_LWIN);
    add_key(map, "META", VK_LWIN);
    assert(table_view(map@) =~= table_view(old(map)@) + modifier_keys());
}

fn add_function_keys(map: &mut Vec<(String, u16)>)
    ensures
        table_view(final(map)@) == table_view(old(map)@) + function_keys(24),
{
    let mut i: u16 = 1;
    assert(table_view(map@) =~= table_view(old(map)@) + function_keys(0));
    while i <= 24
        invariant
            1 <= i <= 25,
            table_view(map@) == table_view(old(map)@) + function_keys((i - 1) as nat),
        decreases 25 - i,
    {
        let mut name = String::new();
        push_char(&mut name, 'F');
        push_decimal(&mut name, i as u64);
        assert(name@ =~= function_key_name(i as nat));
        let ghost before = table_view(map@);
        map.push((name, VK_F1 + (i - 1)));
        assert(table_view(map@) =~= before.push((function_key_name(i as nat), (VK_F1 + i - 1) as u16)));
        assert(table_view(map@) =~= table_view(old(map)@) + function_keys(i as nat));
        i += 1;
    }
}

fn add_special_keys(map: &mut Vec<(String, u16)>)
    ensures
        table_view(final(map)@) == table_view(old(map)@) + special_keys(),
{
    add_key(map, "ENTER", 0x0D);
    add_key(map, "RETURN", 0x0D);
    add_key(map, "TAB", 0x09);
    add_key(map, "ESCAPE", 0x1B);
    add_key(map, "ESC", 0x1B);
    add_key(map, "SPACE", 0x20);
    add_key(map, "BACKSPACE", 0x08);
    add_key(map, "DELETE", 0x2E);
    add_key(map, "DEL", 0x2E);
    add_key(map, "INSERT", 0x2D);
    add_key(map, "INS", 0x2D);
    add_key(map, "HOME", 0x24);
    add_key(map, "END", 0x23);
    add_key(map, "PAGEUP", 0x21);
    add_key(map, "PAGEDOWN", 0x22);
    add_key(map, "UP", 0x26);
    add_key(map, "DOWN", 0x28);
    add_key(map, "LEFT", 0x25);
    add_key(map, "RIGHT", 0x27);
    add_key(map, "PRINTSCREEN", 0x2C);
    add_key(map, "PRTSC", 0x2C);
    add_key(map, "PAUSE", 0x13);
    add_key(map, "CAPSLOCK", 0x14);
    add_key(map, "NUMLOCK", 0x90);
    add_key(map, "SCROLLLOCK", 0x91);
    assert(table_view(map@) =~= table_view(old(map)@) + special_keys());
}

fn add_media_keys(map: &mut Vec<(String, u16)>)
    ensures
        table_view(final(map)@) == table_view(old(map)@) + media_keys(),
{
    add_key(map, "VOLUMEUP", 0xAF);
    add_key(map, "VOLUMEDOWN", 0xAE);
    add_key(map, "VOLUMEMUTE", 0xAD);
    add_key(map, "MUTE", 0xAD);
    add_key(map, "PLAYPAUSE", 0xB3);
    add_key(map, "STOP", 0xB2);
    add_key(map, "NEXTTRACK", 0xB0);
    add_key(map, "PREVTRACK", 0xB1);
    assert(table_view(map@) =~= table_view(old(map)@) + media_keys());
}

/// Builds the table of named keys.
pub fn build_key_map() -> (map: Vec<(String, u16)>)
    ensures
        table_view(map@) == key_table(),
{
    let mut map: Vec<(String, u16)> = Vec::new();
    assert(table_view(map@) =~= Seq::empty());
    add_modifier_keys(&mut map);
    add_function_keys(&mut map);
    add_special_keys(&mut map);
    add_media_keys(&mut map);
    assert(table_view(map@) =~= key_table());
    map
}

/// The code under `name` in a table of keys.
pub fn lookup_key(map: &Vec<(String, u16)>, name: &str) -> (r: Option<u16>)
    ensures
        r == lookup(table_view(map@), name@),
{
    let mut i: usize = 0;
    assert(table_view(map@).subrange(0, map.len() as int) =~= table_view(map@));
    while i < map.len()
        invariant
            i <= map.len(),
            lookup(table_view(map@), name@) == lookup(
                table_view(map@).subrange(i as int, map.len() as int),
                name@,
            ),
        decreases map.len() - i,
    {
        let ghost rest = table_view(map@).subrange(i as int, map.len() as int);
        assert(rest[0] == table_view(map@)[i as int]);
        assert(rest.drop_first() =~= table_view(map@).subrange(i + 1, map.len() as int));
        if str_eq(map[i].0.as_str(), name) {
            return Some(map[i].1);
        }
        i += 1;
    }
    None
}

/// Whether `c` is an ASCII letter or digit.
pub open spec fn is_ascii_alphanumeric(c: char) -> bool {
    let u = c as int;
    48 <= u <= 57 || 65 <= u <= 90 || 97 <= u <= 122
}

/// The code of the key that the upper-cased token `upper` names: that of a named key,
/// or else the code point of a single ASCII letter or digit.
pub open spec fn resolve_key(upper: Seq<char>) -> Option<u16> {
    match lookup(key_table(), upper) {
        Some(code) => Some(code),
        None => if upper.len() == 1 && is_ascii_alphanumeric(upper[0]) {
            Some(upper[0] as u16)
        } else {
            None
        },
    }
}

/// The message for a token that names no key. `token` is the token as written,
/// `upper` its upper-case form.
pub open spec fn key_error(token: Seq<char>, upper: Seq<char>) -> Seq<char> {
    if upper.len() == 1 && (upper[0] as int) < 128 {
        "Unsupported key: "@ + token
    } else {
        "Unknown key: "@ + token
    }
}

/// What one token of a chord comes to, given its upper-case form.
pub open spec fn resolve_token_spec(token: Seq<char>, upper: Seq<char>) -> Result<u16, HotkeyErrorView> {
    match resolve_key(upper) {
        Some(code) => Ok(code),
        None => Err(HotkeyErrorView::InvalidChord(key_error(token, upper))),
    }
}

/// The view of the outcome of resolving one token.
pub open spec fn code_result_view(r: Result<u16, HotkeyError>) -> Result<u16, HotkeyErrorView> {
    match r {
        Ok(code) => Ok(code),
        Err(e) => Err(e@),
    }
}

fn resolve_in(map: &Vec<(String, u16)>, token: &str, upper: &str) -> (r: Result<u16, HotkeyError>)
    requires
        table_view(map@) == key_table(),
    ensures
        code_result_view(r) == resolve_token_spec(token@, upper@),
{
    match lookup_key(map, upper) {
        Some(code) => Ok(code),
        None => {
            let cs = chars_of(upper);
            if cs.len() == 1 {
                let c = cs[0];
                let u: u32 = code_point(c);
                if (48 <= u && u <= 57) || (65 <= u && u <= 90) || (97 <= u && u <= 122) {
                    return Ok(u as u16);
                }
                if u < 128 {
                    let mut m = "Unsupported key: ".to_owned();
                    m.append(token);
                    return Err(HotkeyError::InvalidChord(m));
                }
            }
            let mut m = "Unknown key: ".to_owned();
            m.append(token);
            Err(HotkeyError::InvalidChord(m))
        },
    }
}

/// Resolves one token of a chord. `token` is the token as written, without the
/// whitespace around it, and `upper` is its upper-case form.
pub fn resolve_token(token: &str, upper: &str) -> (r: Result<u16, HotkeyError>)
    ensures
        code_result_view(r) == resolve_token_spec(token@, upper@),
{
    let map = build_key_map();
    resolve_in(&map, token, upper)
}

/// What the tokens of a chord come to: the codes of all of them in order, or the error
/// of the first that names no key.
pub open spec fn resolve_tokens(tokens: Seq<Seq<char>>) -> Result<Seq<u16>, HotkeyErrorView>
    decreases tokens.len(),
{
    if tokens.len() == 0 {
        Ok(Seq::empty())
    } else {
        match resolve_tokens(tokens.drop_last()) {
            Err(e) => Err(e),
            Ok(codes) => {
                let token = trim(tokens.last());
                match resolve_token_spec(token, uppercase(token)) {
                    Ok(code) => Ok(codes.push(code)),
                    Err(e) => Err(e),
                }
            },
        }
    }
}

/// What a chord comes to: its tokens are the pieces between `+` signs, each without
/// the whitespace around it and without regard to case.
pub open spec fn parse_hotkey_spec(chord: Seq<char>) -> Result<Seq<u16>, HotkeyErrorView> {
    resolve_tokens(split(chord, '+'))
}

/// The view of the outcome of parsing a chord.
pub open spec fn keys_result_view(r: Result<Vec<u16>, HotkeyError>) -> Result<Seq<u16>, HotkeyErrorView> {
    match r {
        Ok(keys) => Ok(keys@),
        Err(e) => Err(e@),
    }
}

/// Reads a chord such as `Ctrl+Shift+V` into the virtual-key codes of its keys, in the
/// order in which they are written.
pub fn parse_hotkey(hotkey_str: &str) -> (r: Result<Vec<u16>, HotkeyError>)
    ensures
        keys_result_view(r) == parse_hotkey_spec(hotkey_str@),
{
    let chars = chars_of(hotkey_str);
    let parts = split_on(&chars, '+');
    let map = build_key_map();
    let mut keys: Vec<u16> = Vec::new();
    let mut i: usize = 0;
    let ghost tokens = split(hotkey_str@, '+');
    assert(tokens.take(0) =~= Seq::<Seq<char>>::empty());
    while i < parts.len()
        invariant
            i <= parts.len(),
            tokens == split(hotkey_str@, '+'),
            tokens == pieces_view(parts@),
            table_view(map@) == key_table(),
            resolve_tokens(tokens.take(i as int)) == Ok::<Seq<u16>, HotkeyErrorView>(keys@),
        decreases parts.len() - i,
    {
        proof {
            assert(tokens.take(i + 1).drop_last() =~= tokens.take(i as int));
            assert(tokens.take(i + 1).last() == parts@[i as int]@);
        }
        let token = trimmed(&parts[i]);
        let upper = token.as_str().to_uppercase();
        match resolve_in(&map, token.as_str(), upper.as_str()) {
            Ok(code) => {
                keys.push(code);
            },
            Err(e) => {
                proof {
                    assert(resolve_tokens(tokens.take(i + 1)) == Err::<Seq<u16>, HotkeyErrorView>(e@));
                    lemma_resolve_tokens_error(tokens, i + 1);
                }
                return Err(e);
            },
        }
        i += 1;
    }
    assert(tokens.take(parts.len() as int) =~= tokens);
    Ok(keys)
}

/// Once a prefix of the tokens fails, the whole fails with the same error.
pub proof fn lemma_resolve_tokens_error(tokens: Seq<Seq<char>>, n: int)
    requires
        0 <= n <= tokens.len(),
        resolve_tokens(tokens.take(n)) is Err,
    ensures
        resolve_tokens(tokens) == resolve_tokens(tokens.take(n)),
    decreases tokens.len() - n,
{
    if n < tokens.len() {
        assert(tokens.take(n + 1).drop_last() =~= tokens.take(n));
        lemma_resolve_tokens_error(tokens, n + 1);
    } else {
        assert(tokens.take(n) =~= tokens);
    }
}

/// The batch that presses the keys in order and releases them in reverse order.
pub open spec fn key_batch(keys: Seq<u16>) -> Seq<KeyInput> {
    Seq::new(
        2 * keys.len(),
        |i: int|
            if i < keys.len() {
                KeyInput { virtual_key: keys[i], key_up: false }
            } else {
                KeyInput { virtual_key: keys[2 * keys.len() - 1 - i], key_up: true }
            },
    )
}

/// One key event.
pub fn create_key_input(vk: u16, key_up: bool) -> (r: KeyInput)
    ensures
        r == (KeyInput { virtual_key: vk, key_up }),
{
    KeyInput { virtual_key: vk, key_up }
}

/// What laying out the batch for `keys` comes to: an error where there is no key.
pub open spec fn send_keys_spec(keys: Seq<u16>) -> Result<Seq<KeyInput>, HotkeyErrorView> {
    if keys.len() == 0 {
        Err(HotkeyErrorView::InvalidChord("No keys to send"@))
    } else {
        Ok(key_batch(keys))
    }
}

/// The view of the outcome of laying out a batch.
pub open spec fn batch_result_view(r: Result<Vec<KeyInput>, HotkeyError>) -> Result<
    Seq<KeyInput>,
    HotkeyErrorView,
> {
    match r {
        Ok(batch) => Ok(batch@),
        Err(e) => Err(e@),
    }
}

/// Lays out the batch of key events for a chord: every key down in order, then every
/// key up in reverse order. The caller submits the batch in one piece.
pub fn send_keys(keys: &Vec<u16>) -> (r: Result<Vec<KeyInput>, HotkeyError>)
    ensures
        batch_result_view(r) == send_keys_spec(keys@),
{
    if keys.len() == 0 {
        return Err(HotkeyError::InvalidChord("No keys to send".to_owned()));
    }
    let n: usize = keys.len();
    let mut inputs: Vec<KeyInput> = Vec::new();
    let mut i: usize = 0;
    while i < n
        invariant
            i <= n,
            n == keys.len(),
            inputs.len() == i,
            forall|j: int| 0 <= j < i ==> inputs@[j] == key_batch(keys@)[j],
        decreases n - i,
    {
        inputs.push(create_key_input(keys[i], false));
        i += 1;
    }
    let mut k: usize = n;
    while k > 0
        invariant
            k <= n,
            n == keys.len(),
            inputs.len() == n + (n - k),
            forall|j: int| 0 <= j < inputs.len() ==> inputs@[j] == key_batch(keys@)[j],
        decreases k,
    {
        k -= 1;
        inputs.push(create_key_input(keys[k], true));
    }
    assert(inputs@ =~= key_batch(keys@));
    Ok(inputs)
}

/// What executing a hotkey comes to, before the batch is submitted.
pub open spec fn execute_hotkey_spec(chord: Seq<char>, platform: Platform) -> Result<
    Seq<KeyInput>,
    HotkeyErrorView,
> {
    match platform {
        Platform::Other => Err(HotkeyErrorView::Unsupported),
        Platform::Windows => match parse_hotkey_spec(chord) {
            Err(e) => Err(e),
            Ok(keys) => send_keys_spec(keys),
        },
    }
}

/// Reads a chord and lays out the batch of key events that delivers it. On a platform
/// other than Windows this fails at once. The caller submits the batch and passes the
/// count that the operating system returns to [`check_submission`].
pub fn execute_hotkey(hotkey_str: &str, platform: Platform) -> (r: Result<Vec<KeyInput>, HotkeyError>)
    ensures
        batch_result_view(r) == execute_hotkey_spec(hotkey_str@, platform),
{
    match platform {
        Platform::Other => Err(HotkeyError::Unsupported),
        Platform::Windows => match parse_hotkey(hotkey_str) {
            Err(e) => Err(e),
            Ok(keys) => send_keys(&keys),
        },
    }
}

/// The message for a batch of which only a part was taken.
pub open spec fn partial_submission_message(sent: u32, submitted: usize) -> Seq<char> {
    "SendInput failed: sent "@ + decimal(sent as nat) + " of "@ + decimal(submitted as nat)
        + " inputs"@
}

/// Judges a submission: it succeeded when the operating system took as many events as
/// were submitted.
pub fn check_submission(sent: u32, submitted: usize) -> (r: Result<(), HotkeyError>)
    ensures
        r is Ok <==> sent == submitted,
        r matches Err(e) ==> e@ == HotkeyErrorView::Failed(
            partial_submission_message(sent, submitted),
        ),
{
    if sent as usize == submitted {
        Ok(())
    } else {
        let mut m = "SendInput failed: sent ".to_owned();
        push_decimal(&mut m, sent as u64);
        m.append(" of ");
        push_decimal(&mut m, submitted as u64);
        m.append(" inputs");
        Err(HotkeyError::Failed(m))
    }
}

/// The batch for a chord has two events for every key, and the release at the far end
/// mirrors each press.
pub proof fn lemma_key_batch_mirrors(keys: Seq<u16>)
    ensures
        key_batch(keys).len() == 2 * keys.len(),
        forall|i: int|
            0 <= i < keys.len() ==> {
                &&& (#[trigger] key_batch(keys)[i]) == (KeyInput {
                    virtual_key: keys[i],
                    key_up: false,
                })
                &&& key_batch(keys)[2 * keys.len() - 1 - i] == (KeyInput {
                    virtual_key: keys[i],
                    key_up: true,
                })
            },
{
}

} // verus!
