//! Global push-to-talk and mute keybinds: key names, keybind strings such as
//! `Ctrl+Shift+KeyM`, and when a keybind counts as held.
use crate::targets::{all_digits, digits_value, is_digit, unsigned_digits};
use vstd::prelude::*;
use vstd::string::{StrSliceExecFns, StringExecFns};

verus! {

/// Windows virtual-key codes of the modifier keys.
pub const VK_LSHIFT: i32 = 0xA0;
pub const VK_RSHIFT: i32 = 0xA1;
pub const VK_LCONTROL: i32 = 0xA2;
pub const VK_RCONTROL: i32 = 0xA3;
pub const VK_LMENU: i32 = 0xA4;
pub const VK_RMENU: i32 = 0xA5;
pub const VK_LWIN: i32 = 0x5B;
pub const VK_RWIN: i32 = 0x5C;

/// The two kinds of push keybind.
#[derive(Debug, Clone, Copy, PartialEq, Eq, Structural)]
pub enum PushKeybindKind {
    Talk,
    Mute,
}

impl PushKeybindKind {
    /// The kind as it appears in the `push_keybind.state` event.
    pub fn as_str(self) -> (r: &'static str)
        ensures
            self == PushKeybindKind::Talk ==> r@ == "talk"@,
            self == PushKeybindKind::Mute ==> r@ == "mute"@,
    {
        match self {
            PushKeybindKind::Talk => "talk",
            PushKeybindKind::Mute => "mute",
        }
    }
}

/// A keybind: a virtual-key code and the modifiers that must be held with it.
#[derive(Debug, Clone, Copy, PartialEq, Eq, Structural)]
pub struct WindowsPushKeybind {
    pub key_code: i32,
    pub ctrl: bool,
    pub alt: bool,
    pub shift: bool,
    pub meta: bool,
}

pub open spec fn is_ascii_letter(c: char) -> bool {
    (65 <= (c as u32) <= 90) || (97 <= (c as u32) <= 122)
}

/// The upper-case code of an ASCII letter.
pub open spec fn upper_code(c: char) -> i32 {
    if 97 <= (c as u32) <= 122 {
        ((c as u32) - 32) as i32
    } else {
        (c as u32) as i32
    }
}

/// The virtual-key codes of the keys named by a whole word.
pub open spec fn named_key(s: Seq<char>) -> Option<i32> {
    if s == "Space"@ {
        Some(0x20)
    } else if s == "Enter"@ {
        Some(0x0D)
    } else if s == "Escape"@ {
        Some(0x1B)
    } else if s == "Backspace"@ {
        Some(0x08)
    } else if s == "Tab"@ {
        Some(0x09)
    } else if s == "CapsLock"@ {
        Some(0x14)
    } else if s == "NumLock"@ {
        Some(0x90)
    } else if s == "ScrollLock"@ {
        Some(0x91)
    } else if s == "ArrowUp"@ {
        Some(0x26)
    } else if s == "ArrowDown"@ {
        Some(0x28)
    } else if s == "ArrowLeft"@ {
        Some(0x25)
    } else if s == "ArrowRight"@ {
        Some(0x27)
    } else if s == "Delete"@ {
        Some(0x2E)
    } else if s == "Insert"@ {
        Some(0x2D)
    } else if s == "Home"@ {
        Some(0x24)
    } else if s == "End"@ {
        Some(0x23)
    } else if s == "PageUp"@ {
        Some(0x21)
    } else if s == "PageDown"@ {
        Some(0x22)
    } else if s == "Minus"@ {
        Some(0xBD)
    } else if s == "Equal"@ {
        Some(0xBB)
    } else if s == "BracketLeft"@ {
        Some(0xDB)
    } else if s == "BracketRight"@ {
        Some(0xDD)
    } else if s == "Backslash"@ {
        Some(0xDC)
    } else if s == "Semicolon"@ {
        Some(0xBA)
    } else if s == "Quote"@ {
        Some(0xDE)
    } else if s == "Comma"@ {
        Some(0xBC)
    } else if s == "Period"@ {
        Some(0xBE)
    } else if s == "Slash"@ {
        Some(0xBF)
    } else if s == "Backquote"@ {
        Some(0xC0)
    } else if s == "NumpadMultiply"@ {
        Some(0x6A)
    } else if s == "NumpadAdd"@ {
        Some(0x6B)
    } else if s == "NumpadSubtract"@ {
        Some(0x6D)
    } else if s == "NumpadDecimal"@ {
        Some(0x6E)
    } else if s == "NumpadDivide"@ {
        Some(0x6F)
    } else if s == "NumpadEnter"@ {
        Some(0x0D)
    } else {
        None
    }
}

/// Whether `s` is `Key` and one ASCII letter.
pub open spec fn is_letter_key(s: Seq<char>) -> bool {
    s.len() == 4 && s[0] == 'K' && s[1] == 'e' && s[2] == 'y' && is_ascii_letter(s[3])
}

/// Whether `s` is `Digit` and one ASCII digit.
pub open spec fn is_digit_key(s: Seq<char>) -> bool {
    s.len() == 6 && s[0] == 'D' && s[1] == 'i' && s[2] == 'g' && s[3] == 'i' && s[4] == 't'
        && is_digit(s[5])
}

/// The number of a function key `F1` to `F24` (the number may carry a `+`
/// and leading zeros, as `i32::from_str` reads it).
pub open spec fn function_key_number(s: Seq<char>) -> Option<nat> {
    if s.len() > 0 && s[0] == 'F' {
        let d = unsigned_digits(s.drop_first());
        if d.len() > 0 && all_digits(d) && 1 <= digits_value(d) <= 24 {
            Some(digits_value(d))
        } else {
            None
        }
    } else {
        None
    }
}

/// Whether `s` is `Numpad` and one ASCII digit.
pub open spec fn is_numpad_digit_key(s: Seq<char>) -> bool {
    s.len() == 7 && s[0] == 'N' && s[1] == 'u' && s[2] == 'm' && s[3] == 'p' && s[4] == 'a'
        && s[5] == 'd' && is_digit(s[6])
}

/// The virtual-key code of a key name as the keyboard event `code` field
/// writes it (`KeyA`, `Digit1`, `F5`, `Numpad3`, `Space`, ...).
pub open spec fn virtual_key(s: Seq<char>) -> Option<i32> {
    if is_letter_key(s) {
        Some(upper_code(s[3]))
    } else if is_digit_key(s) {
        Some((s[5] as u32) as i32)
    } else if function_key_number(s).is_some() {
        Some((0x6F + function_key_number(s).unwrap()) as i32)
    } else if is_numpad_digit_key(s) {
        Some((0x60 + ((s[6] as u32) - 48)) as i32)
    } else {
        named_key(s)
    }
}

/// Whether `s` holds exactly the characters of `lit`.
pub(crate) fn text_is(s: &str, lit: &str) -> (r: bool)
    ensures
        r == (s@ == lit@),
{
    let n = s.unicode_len();
    if n != lit.unicode_len() {
        return false;
    }
    let mut i: usize = 0;
    while i < n
        invariant
            i <= n,
            n == s@.len(),
            n == lit@.len(),
            s@.subrange(0, i as int) == lit@.subrange(0, i as int),
        decreases n - i,
    {
        if s.get_char(i) != lit.get_char(i) {
            return false;
        }
        proof {
            assert(s@.subrange(0, i + 1) =~= s@.subrange(0, i as int).push(s@[i as int]));
            assert(lit@.subrange(0, i + 1) =~= lit@.subrange(0, i as int).push(lit@[i as int]));
        }
        i = i + 1;
    }
    proof {
        assert(s@ =~= s@.subrange(0, n as int));
        assert(lit@ =~= lit@.subrange(0, n as int));
    }
    true
}

fn named_key_code(s: &str) -> (r: Option<i32>)
    ensures
        r == named_key(s@),
{
    if text_is(s, "Space") {
        Some(0x20)
    } else if text_is(s, "Enter") {
        Some(0x0D)
    } else if text_is(s, "Escape") {
        Some(0x1B)
    } else if text_is(s, "Backspace") {
        Some(0x08)
    } else if text_is(s, "Tab") {
        Some(0x09)
    } else if text_is(s, "CapsLock") {
        Some(0x14)
    } else if text_is(s, "NumLock") {
        Some(0x90)
    } else if text_is(s, "ScrollLock") {
        Some(0x91)
    } else if text_is(s, "ArrowUp") {
        Some(0x26)
    } else if text_is(s, "ArrowDown") {
        Some(0x28)
    } else if text_is(s, "ArrowLeft") {
        Some(0x25)
    } else if text_is(s, "ArrowRight") {
        Some(0x27)
    } else if text_is(s, "Delete") {
        Some(0x2E)
    } else if text_is(s, "Insert") {
        Some(0x2D)
    } else if text_is(s, "Home") {
        Some(0x24)
    } else if text_is(s, "End") {
        Some(0x23)
    } else if text_is(s, "PageUp") {
        Some(0x21)
    } else if text_is(s, "PageDown") {
        Some(0x22)
    } else if text_is(s, "Minus") {
        Some(0xBD)
    } else if text_is(s, "Equal") {
        Some(0xBB)
    } else if text_is(s, "BracketLeft") {
        Some(0xDB)
    } else if text_is(s, "BracketRight") {
        Some(0xDD)
    } else if text_is(s, "Backslash") {
        Some(0xDC)
    } else if text_is(s, "Semicolon") {
        Some(0xBA)
    } else if text_is(s, "Quote") {
        Some(0xDE)
    } else if text_is(s, "Comma") {
        Some(0xBC)
    } else if text_is(s, "Period") {
        Some(0xBE)
    } else if text_is(s, "Slash") {
        Some(0xBF)
    } else if text_is(s, "Backquote") {
        Some(0xC0)
    } else if text_is(s, "NumpadMultiply") {
        Some(0x6A)
    } else if text_is(s, "NumpadAdd") {
        Some(0x6B)
    } else if text_is(s, "NumpadSubtract") {
        Some(0x6D)
    } else if text_is(s, "NumpadDecimal") {
        Some(0x6E)
    } else if text_is(s, "NumpadDivide") {
        Some(0x6F)
    } else if text_is(s, "NumpadEnter") {
        Some(0x0D)
    } else {
        None
    }
}

/// Maps a key name to its Windows virtual-key code.
pub fn map_key_code_to_virtual_key(key_code: &str) -> (r: Option<i32>)
    ensures
        r == virtual_key(key_code@),
{
    let n = key_code.unicode_len();
    if n == 4 && key_code.get_char(0) == 'K' && key_code.get_char(1) == 'e' && key_code.get_char(2)
        == 'y' {
        let c = key_code.get_char(3);
        let v = c as u32;
        if 65 <= v && v <= 90 {
            return Some(v as i32);
        }
        if 97 <= v && v <= 122 {
            return Some((v - 32) as i32);
        }
    }
    if n == 6 && key_code.get_char(0) == 'D' && key_code.get_char(1) == 'i' && key_code.get_char(2)
        == 'g' && key_code.get_char(3) == 'i' && key_code.get_char(4) == 't' {
        let v = key_code.get_char(5) as u32;
        if 48 <= v && v <= 57 {
            return Some(v as i32);
        }
    }
    if n > 0 && key_code.get_char(0) == 'F' {
        let rest = key_code.substring_char(1, n);
        proof {
            assert(rest@ =~= key_code@.drop_first());
        }
        let number = crate::targets::parse_decimal_u32(rest);
        proof {
            assert(unsigned_digits(rest@) == unsigned_digits(key_code@.drop_first()));
        }
        match number {
            Some(k) => {
                if 1 <= k && k <= 24 {
                    return Some(0x6F + k as i32);
                }
            },
            None => {},
        }
    }
    if n == 7 && key_code.get_char(0) == 'N' && key_code.get_char(1) == 'u' && key_code.get_char(2)
        == 'm' && key_code.get_char(3) == 'p' && key_code.get_char(4) == 'a' && key_code.get_char(5)
        == 'd' {
        let v = key_code.get_char(6) as u32;
        if 48 <= v && v <= 57 {
            return Some(0x60 + (v - 48) as i32);
        }
    }
    named_key_code(key_code)
}

/// Which modifier keys are held (either the left or the right one).
#[derive(Debug, Clone, Copy, PartialEq, Eq, Structural)]
pub struct ModifierState {
    pub ctrl: bool,
    pub alt: bool,
    pub shift: bool,
    pub meta: bool,
}

/// Whether the held modifiers are exactly those of the keybind.
pub fn current_modifiers_match(keybind: &WindowsPushKeybind, held: &ModifierState) -> (r: bool)
    ensures
        r == (held.ctrl == keybind.ctrl && held.alt == keybind.alt && held.shift == keybind.shift
            && held.meta == keybind.meta),
{
    held.ctrl == keybind.ctrl && held.alt == keybind.alt && held.shift == keybind.shift && held.meta
        == keybind.meta
}

/// Whether a keybind is active: its key is down and exactly its modifiers
/// are held.
pub fn is_push_keybind_active(keybind: &WindowsPushKeybind, key_down: bool, held: &ModifierState) -> (r:
    bool)
    ensures
        r == (key_down && held.ctrl == keybind.ctrl && held.alt == keybind.alt && held.shift
            == keybind.shift && held.meta == keybind.meta),
{
    key_down && current_modifiers_match(keybind, held)
}

/// The state that the keybind watcher last reported.
pub struct PushKeybindWatcherState {
    pub talk_active: bool,
    pub mute_active: bool,
}

/// The state events that a watcher reports when its keybinds go from the
/// old activity to the new: one per kind whose activity changed, talk first.
pub open spec fn state_events(old_talk: bool, old_mute: bool, talk: bool, mute: bool) -> Seq<
    (PushKeybindKind, bool),
> {
    let t = if talk != old_talk {
        seq![(PushKeybindKind::Talk, talk)]
    } else {
        Seq::empty()
    };
    let m = if mute != old_mute {
        seq![(PushKeybindKind::Mute, mute)]
    } else {
        Seq::empty()
    };
    t + m
}

impl PushKeybindWatcherState {
    /// Nothing is active when the watcher starts.
    pub fn new() -> (r: PushKeybindWatcherState)
        ensures
            !r.talk_active,
            !r.mute_active,
    {
        PushKeybindWatcherState { talk_active: false, mute_active: false }
    }

    /// Takes one poll of the two keybinds and returns the state events to
    /// report.
    pub fn observe(&mut self, talk_now: bool, mute_now: bool) -> (r: Vec<(PushKeybindKind, bool)>)
        ensures
            r@ == state_events(old(self).talk_active, old(self).mute_active, talk_now, mute_now),
            final(self).talk_active == talk_now,
            final(self).mute_active == mute_now,
    {
        let mut events: Vec<(PushKeybindKind, bool)> = Vec::new();
        if talk_now != self.talk_active {
            self.talk_active = talk_now;
            events.push((PushKeybindKind::Talk, talk_now));
        }
        if mute_now != self.mute_active {
            self.mute_active = mute_now;
            events.push((PushKeybindKind::Mute, mute_now));
        }
        proof {
            assert(events@ =~= state_events(
                old(self).talk_active,
                old(self).mute_active,
                talk_now,
                mute_now,
            ));
        }
        events
    }

    /// The watcher stops: every keybind still active is reported released.
    pub fn release(&mut self) -> (r: Vec<(PushKeybindKind, bool)>)
        ensures
            r@ == state_events(old(self).talk_active, old(self).mute_active, false, false),
            !final(self).talk_active,
            !final(self).mute_active,
    {
        self.observe(false, false)
    }
}

/// `char::is_whitespace`: the characters with the Unicode White_Space
/// property.
pub open spec fn is_white_space(c: char) -> bool {
    let v = c as u32;
    (0x09 <= v <= 0x0D) || v == 0x20 || v == 0x85 || v == 0xA0 || v == 0x1680 || (0x2000 <= v
        <= 0x200A) || v == 0x2028 || v == 0x2029 || v == 0x202F || v == 0x205F || v == 0x3000
}

fn white_space(c: char) -> (r: bool)
    ensures
        r == is_white_space(c),
{
    let v = c as u32;
    (0x09 <= v && v <= 0x0D) || v == 0x20 || v == 0x85 || v == 0xA0 || v == 0x1680 || (0x2000 <= v
        && v <= 0x200A) || v == 0x2028 || v == 0x2029 || v == 0x202F || v == 0x205F || v == 0x3000
}

/// Index of the first character at or after `i` that is not white space, or
/// the length.
pub open spec fn skip_space(s: Seq<char>, i: int) -> int
    decreases s.len() - i,
{
    if i >= s.len() || !is_white_space(s[i]) {
        i
    } else {
        skip_space(s, i + 1)
    }
}

/// Index just past the last character before `j`, and at or after `lo`, that
/// is not white space, or `lo`.
pub open spec fn skip_space_back(s: Seq<char>, lo: int, j: int) -> int
    decreases j - lo,
{
    if j <= lo || !is_white_space(s[j - 1]) {
        j
    } else {
        skip_space_back(s, lo, j - 1)
    }
}

/// `str::trim`: the text without leading and trailing white space.
pub open spec fn trimmed(s: Seq<char>) -> Seq<char> {
    let a = skip_space(s, 0);
    s.subrange(a, skip_space_back(s, a, s.len() as int))
}

/// Index of the first `+` at or after `i`, or the length.
pub open spec fn plus_end(s: Seq<char>, i: int) -> int
    decreases s.len() - i,
{
    if i >= s.len() || s[i] == '+' {
        i
    } else {
        plus_end(s, i + 1)
    }
}

proof fn lemma_skip_bounds(s: Seq<char>, i: int, lo: int, j: int)
    requires
        0 <= i <= s.len(),
        0 <= lo <= j <= s.len(),
    ensures
        i <= skip_space(s, i) <= s.len(),
        lo <= skip_space_back(s, lo, j) <= j,
    decreases s.len() - i + j - lo,
{
    if i < s.len() && is_white_space(s[i]) {
        lemma_skip_bounds(s, i + 1, lo, j);
    } else if j > lo && is_white_space(s[j - 1]) {
        lemma_skip_bounds(s, i, lo, j - 1);
    }
}

proof fn lemma_plus_end_bounds(s: Seq<char>, i: int)
    requires
        0 <= i <= s.len(),
    ensures
        i <= plus_end(s, i) <= s.len(),
    decreases s.len() - i,
{
    if i < s.len() && s[i] != '+' {
        lemma_plus_end_bounds(s, i + 1);
    }
}

/// What the tokens of a keybind seen so far amount to.
pub struct KeybindTokens {
    pub ctrl: bool,
    pub alt: bool,
    pub shift: bool,
    pub meta: bool,
    pub key: Option<Seq<char>>,
    pub any: bool,
}

pub open spec fn is_ctrl_token(t: Seq<char>) -> bool {
    t == "Control"@ || t == "Ctrl"@
}

pub open spec fn is_meta_token(t: Seq<char>) -> bool {
    t == "Meta"@ || t == "Command"@
}

/// Takes one non-empty token: a modifier name sets its modifier, anything
/// else is the key, of which there may be only one.
pub open spec fn take_token(st: KeybindTokens, t: Seq<char>) -> Option<KeybindTokens> {
    let st = KeybindTokens { any: true, ..st };
    if is_ctrl_token(t) {
        Some(KeybindTokens { ctrl: true, ..st })
    } else if t == "Alt"@ {
        Some(KeybindTokens { alt: true, ..st })
    } else if t == "Shift"@ {
        Some(KeybindTokens { shift: true, ..st })
    } else if is_meta_token(t) {
        Some(KeybindTokens { meta: true, ..st })
    } else if st.key.is_some() {
        None
    } else {
        Some(KeybindTokens { key: Some(t), ..st })
    }
}

/// Reads the `+`-separated tokens of `s` from index `i` on, each trimmed,
/// skipping empty ones; `None` where a second key appears.
pub open spec fn read_tokens(s: Seq<char>, i: int, st: KeybindTokens) -> Option<KeybindTokens>
    decreases s.len() - i,
{
    if i < 0 || i > s.len() {
        None
    } else {
        let e = plus_end(s, i);
        let t = trimmed(s.subrange(i, e));
        let next = if t.len() == 0 {
            Some(st)
        } else {
            take_token(st, t)
        };
        match next {
            None => None,
            Some(st2) => if e >= s.len() || e < i {
                Some(st2)
            } else {
                read_tokens(s, e + 1, st2)
            },
        }
    }
}

pub open spec fn no_tokens() -> KeybindTokens {
    KeybindTokens { ctrl: false, alt: false, shift: false, meta: false, key: None, any: false }
}

/// What a keybind string gives: `Ok(None)` where it holds no token, the
/// keybind where it names modifiers and one known key, else an error.
pub open spec fn keybind_of(s: Seq<char>) -> Result<Option<WindowsPushKeybind>, Seq<char>> {
    match read_tokens(s, 0, no_tokens()) {
        None => Err("Invalid keybind format."@),
        Some(st) => if !st.any {
            Ok(None)
        } else if st.key.is_none() {
            Err("Missing key code in keybind."@)
        } else if virtual_key(st.key.unwrap()).is_none() {
            Err("Unsupported key for global keybind monitoring."@)
        } else {
            Ok(
                Some(
                    WindowsPushKeybind {
                        key_code: virtual_key(st.key.unwrap()).unwrap(),
                        ctrl: st.ctrl,
                        alt: st.alt,
                        shift: st.shift,
                        meta: st.meta,
                    },
                ),
            )
        },
    }
}

/// The spec view of a parse result, with errors as their message text.
pub open spec fn keybind_result_view(r: Result<Option<WindowsPushKeybind>, String>) -> Result<
    Option<WindowsPushKeybind>,
    Seq<char>,
> {
    match r {
        Ok(k) => Ok(k),
        Err(e) => Err(e@),
    }
}

/// Parses a keybind string such as `Ctrl+Shift+KeyM`. No string, or one
/// with no token, means no keybind.
pub fn parse_push_keybind(keybind: Option<&str>) -> (r: Result<Option<WindowsPushKeybind>, String>)
    ensures
        keybind.is_none() ==> r == Ok::<Option<WindowsPushKeybind>, String>(None),
        keybind.is_some() ==> keybind_result_view(r) == keybind_of(keybind.unwrap()@),
{
    let s = match keybind {
        None => {
            return Ok(None);
        },
        Some(s) => s,
    };
    let n = s.unicode_len();
    let mut ctrl = false;
    let mut alt = false;
    let mut shift = false;
    let mut meta = false;
    let mut key: Option<&str> = None;
    let mut any = false;
    let mut i: usize = 0;
    loop
        invariant_except_break
            read_tokens(s@, i as int, KeybindTokens {
                ctrl,
                alt,
                shift,
                meta,
                key: match key {
                    Some(k) => Some(k@),
                    None => None,
                },
                any,
            }) == read_tokens(s@, 0, no_tokens()),
        invariant
            i <= n,
            n == s@.len(),
            keybind == Some(s),
        ensures
            Some(KeybindTokens {
                ctrl,
                alt,
                shift,
                meta,
                key: match key {
                    Some(k) => Some(k@),
                    None => None,
                },
                any,
            }) == read_tokens(s@, 0, no_tokens()),
        decreases n - i,
    {
        let ghost st = KeybindTokens {
            ctrl,
            alt,
            shift,
            meta,
            key: match key {
                Some(k) => Some(k@),
                None => None,
            },
            any,
        };
        let mut e = i;
        while e < n && s.get_char(e) != '+'
            invariant
                i <= e <= n,
                n == s@.len(),
                plus_end(s@, e as int) == plus_end(s@, i as int),
            decreases n - e,
        {
            e = e + 1;
        }
        let piece = s.substring_char(i, e);
        let pn = piece.unicode_len();
        let mut a: usize = 0;
        while a < pn && white_space(piece.get_char(a))
            invariant
                a <= pn,
                pn == piece@.len(),
                skip_space(piece@, a as int) == skip_space(piece@, 0),
            decreases pn - a,
        {
            a = a + 1;
        }
        let mut b: usize = pn;
        while b > a && white_space(piece.get_char(b - 1))
            invariant
                a <= b <= pn,
                pn == piece@.len(),
                a == skip_space(piece@, 0),
                skip_space_back(piece@, a as int, b as int) == skip_space_back(
                    piece@,
                    a as int,
                    pn as int,
                ),
            decreases b - a,
        {
            b = b - 1;
        }
        let token = piece.substring_char(a, b);
        proof {
            lemma_plus_end_bounds(s@, i as int);
            assert(plus_end(s@, e as int) == e);
            assert(piece@ == s@.subrange(i as int, e as int));
            assert(skip_space(piece@, a as int) == a);
            assert(skip_space_back(piece@, a as int, b as int) == b);
            assert(token@ == trimmed(s@.subrange(i as int, e as int)));
        }
        if b > a {
            any = true;
            if text_is(token, "Control") || text_is(token, "Ctrl") {
                ctrl = true;
            } else if text_is(token, "Alt") {
                alt = true;
            } else if text_is(token, "Shift") {
                shift = true;
            } else if text_is(token, "Meta") || text_is(token, "Command") {
                meta = true;
            } else if key.is_some() {
                return Err(String::from_str("Invalid keybind format."));
            } else {
                key = Some(token);
            }
        }
        if e >= n {
            break;
        }
        i = e + 1;
    }
    if !any {
        return Ok(None);
    }
    let name = match key {
        None => {
            return Err(String::from_str("Missing key code in keybind."));
        },
        Some(k) => k,
    };
    match map_key_code_to_virtual_key(name) {
        None => Err(String::from_str("Unsupported key for global keybind monitoring.")),
        Some(key_code) => Ok(Some(WindowsPushKeybind { key_code, ctrl, alt, shift, meta })),
    }
}

/// The keybinds to watch after a `push_keybinds.set` command, with the
/// problems to report.
pub struct PushKeybindSetup {
    pub talk: Option<WindowsPushKeybind>,
    pub mute: Option<WindowsPushKeybind>,
    pub errors: Vec<String>,
}

pub open spec fn parsed_or_none(r: Result<Option<WindowsPushKeybind>, Seq<char>>) -> Option<
    WindowsPushKeybind,
> {
    match r {
        Ok(k) => k,
        Err(_) => None,
    }
}

/// The report line for a keybind that did not parse.
pub open spec fn invalid_line(prefix: Seq<char>, r: Result<Option<WindowsPushKeybind>, Seq<char>>) -> Seq<
    Seq<char>,
> {
    match r {
        Ok(_) => Seq::empty(),
        Err(e) => seq![prefix + e],
    }
}

/// Parses both keybinds. One that does not parse is reported and not
/// watched; a mute keybind equal to the talk keybind is reported and dropped.
pub fn resolve_push_keybinds(talk: Option<&str>, mute: Option<&str>) -> (r: PushKeybindSetup)
    ensures
        ({
            let t = match talk {
                Some(s) => keybind_of(s@),
                None => Ok(None),
            };
            let m = match mute {
                Some(s) => keybind_of(s@),
                None => Ok(None),
            };
            let tk = parsed_or_none(t);
            let mk = parsed_or_none(m);
            let clash = tk.is_some() && mk.is_some() && tk == mk;
            &&& r.talk == tk
            &&& r.mute == (if clash {
                None
            } else {
                mk
            })
            &&& r.errors@.map_values(|e: String| e@) == invalid_line(
                "Push-to-talk keybind is invalid: "@,
                t,
            ) + invalid_line("Push-to-mute keybind is invalid: "@, m) + (if clash {
                seq!["Push-to-mute keybind matches push-to-talk and was ignored."@]
            } else {
                Seq::empty()
            })
        }),
{
    let mut errors: Vec<String> = Vec::new();
    let talk_keybind = match parse_push_keybind(talk) {
        Ok(k) => k,
        Err(e) => {
            errors.push(String::from_str("Push-to-talk keybind is invalid: ").concat(e.as_str()));
            None
        },
    };
    let ghost after_talk = errors@;
    let mut mute_keybind = match parse_push_keybind(mute) {
        Ok(k) => k,
        Err(e) => {
            errors.push(String::from_str("Push-to-mute keybind is invalid: ").concat(e.as_str()));
            None
        },
    };
    let ghost after_mute = errors@;
    let clash = match (talk_keybind, mute_keybind) {
        (Some(a), Some(b)) => a == b,
        _ => false,
    };
    if clash {
        mute_keybind = None;
        errors.push(String::from_str("Push-to-mute keybind matches push-to-talk and was ignored."));
    }
    proof {
        let t = match talk {
            Some(s) => keybind_of(s@),
            None => Ok(None),
        };
        let m = match mute {
            Some(s) => keybind_of(s@),
            None => Ok(None),
        };
        let expected = invalid_line("Push-to-talk keybind is invalid: "@, t) + invalid_line(
            "Push-to-mute keybind is invalid: "@,
            m,
        ) + (if clash {
            seq!["Push-to-mute keybind matches push-to-talk and was ignored."@]
        } else {
            Seq::empty()
        });
        assert(errors@.map_values(|e: String| e@) =~= expected);
    }
    PushKeybindSetup { talk: talk_keybind, mute: mute_keybind, errors }
}

} // verus!
