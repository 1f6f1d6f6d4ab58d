//! Global shortcut keys: the actions they trigger, their default assignment, the
//! conversion between the two modifier encodings, and their display names.
use vstd::prelude::*;
use crate::text::{
    append_chars, append_str, decimal, digit_char, hex2, join_newline_vec, join_with_newlines, push_decimal,
    push_hex2, string_from_chars, views,
};

verus! {

/// Modifier flags of a registered hot key.
pub const MOD_ALT: u32 = 1;
pub const MOD_CONTROL: u32 = 2;
pub const MOD_SHIFT: u32 = 4;

/// Modifier flags of the hot key input control.
pub const HOTKEYF_SHIFT: u32 = 1;
pub const HOTKEYF_CONTROL: u32 = 2;
pub const HOTKEYF_ALT: u32 = 4;

/// Number of shortcut actions: 0 shows or hides the window, 1 stores the clipboard as a
/// snippet, 2-10 paste history entries 1-9, 11-19 delete history entries 1-9, 20-28 paste
/// snippets 1-9, 29 toggles "always on top".
pub const HK_COUNT: usize = 30;

/// Identifier under which action `i` is registered: `HK_ID_BASE + i`.
pub const HK_ID_BASE: i32 = 100;

/// The default assignment: Ctrl+Alt+V stores the clipboard as a snippet, Ctrl+Alt+1 to
/// Ctrl+Alt+9 paste history entries 1 to 9; every other action has no key (key code 0).
pub open spec fn default_hotkeys_spec() -> Seq<(u32, u32)> {
    Seq::new(
        HK_COUNT as nat,
        |i: int|
            if i == 1 {
                (MOD_CONTROL | MOD_ALT, 0x56u32)
            } else if 2 <= i <= 10 {
                (MOD_CONTROL | MOD_ALT, (0x31 + i - 2) as u32)
            } else {
                (0u32, 0u32)
            },
    )
}

pub fn default_hotkeys() -> (hk: Vec<(u32, u32)>)
    ensures
        hk@ == default_hotkeys_spec(),
{
    let mut hk: Vec<(u32, u32)> = Vec::new();
    for i in 0..HK_COUNT
        invariant
            hk@ == default_hotkeys_spec().take(i as int),
    {
        let v: (u32, u32) = if i == 1 {
            (MOD_CONTROL | MOD_ALT, 0x56u32)
        } else if 2 <= i && i <= 10 {
            (MOD_CONTROL | MOD_ALT, (0x31 + i - 2) as u32)
        } else {
            (0u32, 0u32)
        };
        hk.push(v);
        assert(hk@ =~= default_hotkeys_spec().take(i + 1));
    }
    assert(default_hotkeys_spec().take(HK_COUNT as int) =~= default_hotkeys_spec());
    hk
}

// ---------------------------------------------------------------------------
// Modifier encodings
// ---------------------------------------------------------------------------

/// Hot key control flags to registration flags: shift, control and alt map across.
pub open spec fn hotkeyf_to_mod_spec(hf: u32) -> u32 {
    (if hf & HOTKEYF_SHIFT != 0 { MOD_SHIFT } else { 0u32 }) | (if hf & HOTKEYF_CONTROL != 0 {
        MOD_CONTROL
    } else {
        0u32
    }) | (if hf & HOTKEYF_ALT != 0 { MOD_ALT } else { 0u32 })
}

/// Registration flags to hot key control flags.
pub open spec fn mod_to_hotkeyf_spec(m: u32) -> u32 {
    (if m & MOD_SHIFT != 0 { HOTKEYF_SHIFT } else { 0u32 }) | (if m & MOD_CONTROL != 0 {
        HOTKEYF_CONTROL
    } else {
        0u32
    }) | (if m & MOD_ALT != 0 { HOTKEYF_ALT } else { 0u32 })
}

pub fn hotkeyf_to_mod(hf: u32) -> (m: u32)
    ensures
        m == hotkeyf_to_mod_spec(hf),
{
    (if hf & HOTKEYF_SHIFT != 0 { MOD_SHIFT } else { 0u32 }) | (if hf & HOTKEYF_CONTROL != 0 {
        MOD_CONTROL
    } else {
        0u32
    }) | (if hf & HOTKEYF_ALT != 0 { MOD_ALT } else { 0u32 })
}

pub fn mod_to_hotkeyf(m: u32) -> (h: u32)
    ensures
        h == mod_to_hotkeyf_spec(m),
{
    (if m & MOD_SHIFT != 0 { HOTKEYF_SHIFT } else { 0u32 }) | (if m & MOD_CONTROL != 0 {
        HOTKEYF_CONTROL
    } else {
        0u32
    }) | (if m & MOD_ALT != 0 { HOTKEYF_ALT } else { 0u32 })
}

/// Converting modifier flags to the control's encoding and back keeps the shift,
/// control and alt bits and drops every other bit, in both directions.
pub proof fn lemma_modifier_roundtrip(m: u32, hf: u32)
    ensures
        hotkeyf_to_mod_spec(mod_to_hotkeyf_spec(m)) == m & 7,
        mod_to_hotkeyf_spec(hotkeyf_to_mod_spec(hf)) == hf & 7,
{
    assert(((if m & 4 != 0 { 1u32 } else { 0u32 }) | (if m & 2 != 0 { 2u32 } else { 0u32 }) | (if m
        & 1 != 0 { 4u32 } else { 0u32 })) & 1 != 0 <==> m & 4 != 0) by (bit_vector);
    let h = mod_to_hotkeyf_spec(m);
    assert(h == ((if m & 4 != 0 { 1u32 } else { 0u32 }) | (if m & 2 != 0 { 2u32 } else { 0u32 }) | (
    if m & 1 != 0 { 4u32 } else { 0u32 })));
    assert(((if h & 1 != 0 { 4u32 } else { 0u32 }) | (if h & 2 != 0 { 2u32 } else { 0u32 }) | (if h
        & 4 != 0 { 1u32 } else { 0u32 })) == m & 7) by (bit_vector)
        requires
            h == ((if m & 4 != 0 { 1u32 } else { 0u32 }) | (if m & 2 != 0 { 2u32 } else { 0u32 }) | (
            if m & 1 != 0 { 4u32 } else { 0u32 })),
    ;
    let g = hotkeyf_to_mod_spec(hf);
    assert(g == ((if hf & 1 != 0 { 4u32 } else { 0u32 }) | (if hf & 2 != 0 { 2u32 } else { 0u32 })
        | (if hf & 4 != 0 { 1u32 } else { 0u32 })));
    assert(((if g & 4 != 0 { 1u32 } else { 0u32 }) | (if g & 2 != 0 { 2u32 } else { 0u32 }) | (if g
        & 1 != 0 { 4u32 } else { 0u32 })) == hf & 7) by (bit_vector)
        requires
            g == ((if hf & 1 != 0 { 4u32 } else { 0u32 }) | (if hf & 2 != 0 { 2u32 } else { 0u32 })
                | (if hf & 4 != 0 { 1u32 } else { 0u32 })),
    ;
}

/// The two encodings name the same keys: the control's shift, control and alt flags
/// become the registration's shift, control and alt flags and back, one by one and in
/// combination.
pub proof fn lemma_modifier_table()
    ensures
        hotkeyf_to_mod_spec(HOTKEYF_SHIFT) == MOD_SHIFT,
        hotkeyf_to_mod_spec(HOTKEYF_CONTROL) == MOD_CONTROL,
        hotkeyf_to_mod_spec(HOTKEYF_ALT) == MOD_ALT,
        hotkeyf_to_mod_spec(0) == 0,
        hotkeyf_to_mod_spec(HOTKEYF_CONTROL | HOTKEYF_ALT) == MOD_CONTROL | MOD_ALT,
        mod_to_hotkeyf_spec(MOD_SHIFT) == HOTKEYF_SHIFT,
        mod_to_hotkeyf_spec(MOD_CONTROL) == HOTKEYF_CONTROL,
        mod_to_hotkeyf_spec(MOD_ALT) == HOTKEYF_ALT,
        mod_to_hotkeyf_spec(0) == 0,
        mod_to_hotkeyf_spec(MOD_CONTROL | MOD_ALT) == HOTKEYF_CONTROL | HOTKEYF_ALT,
{
    assert(1u32 & 1u32 != 0 && 1u32 & 2u32 == 0 && 1u32 & 4u32 == 0) by (bit_vector);
    assert(2u32 & 1u32 == 0 && 2u32 & 2u32 != 0 && 2u32 & 4u32 == 0) by (bit_vector);
    assert(4u32 & 1u32 == 0 && 4u32 & 2u32 == 0 && 4u32 & 4u32 != 0) by (bit_vector);
    assert(0u32 & 1u32 == 0 && 0u32 & 2u32 == 0 && 0u32 & 4u32 == 0) by (bit_vector);
    assert((2u32 | 4u32) & 1u32 == 0 && (2u32 | 4u32) & 2u32 != 0 && (2u32 | 4u32) & 4u32 != 0)
        by (bit_vector);
    assert((2u32 | 1u32) & 1u32 != 0 && (2u32 | 1u32) & 2u32 != 0 && (2u32 | 1u32) & 4u32 == 0)
        by (bit_vector);
    assert((4u32 | 0u32) | 0u32 == 4u32 && (0u32 | 2u32) | 0u32 == 2u32 && (0u32 | 0u32) | 1u32
        == 1u32 && (0u32 | 0u32) | 0u32 == 0u32) by (bit_vector);
    assert((1u32 | 0u32) | 0u32 == 1u32 && (0u32 | 0u32) | 4u32 == 4u32) by (bit_vector);
    assert((0u32 | 2u32) | 1u32 == (2u32 | 1u32) && (0u32 | 2u32) | 4u32 == (2u32 | 4u32))
        by (bit_vector);
}

/// The value written to the hot key control for an assignment: control flags in the
/// second byte, key code in the low byte (`(mod_to_hotkeyf(m) << 8) | vk`).
pub open spec fn encode_hotkey_control_spec(m: u32, vk: u32) -> u32 {
    (mod_to_hotkeyf_spec(m) << 8) | vk
}

/// The assignment read back from the hot key control's value: the key code is the low
/// byte and the modifiers come from the second byte; a key code of 0 means no key.
pub open spec fn decode_hotkey_control_spec(hk: u32) -> (u32, u32) {
    let vk = hk & 0xff;
    if vk == 0 {
        (0u32, 0u32)
    } else {
        (hotkeyf_to_mod_spec((hk >> 8) & 0xff), vk)
    }
}

pub fn encode_hotkey_control(m: u32, vk: u32) -> (hk: u32)
    ensures
        hk == encode_hotkey_control_spec(m, vk),
{
    (mod_to_hotkeyf(m) << 8) | vk
}

pub fn decode_hotkey_control(hk: u32) -> (r: (u32, u32))
    ensures
        r == decode_hotkey_control_spec(hk),
{
    let vk = hk & 0xff;
    if vk == 0 {
        (0, 0)
    } else {
        (hotkeyf_to_mod((hk >> 8) & 0xff), vk)
    }
}

/// An assignment shown in the hot key control and read back is unchanged, when its
/// modifiers are among shift, control and alt and its key code is a single byte.
pub proof fn lemma_hotkey_control_roundtrip(m: u32, vk: u32)
    requires
        m <= 7,
        0 < vk <= 0xff,
    ensures
        decode_hotkey_control_spec(encode_hotkey_control_spec(m, vk)) == (m, vk),
{
    let h = mod_to_hotkeyf_spec(m);
    lemma_modifier_roundtrip(m, h);
    assert(h <= 7) by (bit_vector)
        requires
            h == ((if m & 4 != 0 { 1u32 } else { 0u32 }) | (if m & 2 != 0 { 2u32 } else { 0u32 }) | (
            if m & 1 != 0 { 4u32 } else { 0u32 })),
    ;
    let e = (h << 8) | vk;
    assert(e & 0xff == vk && (e >> 8) & 0xff == h) by (bit_vector)
        requires
            e == (h << 8) | vk,
            h <= 7,
            vk <= 0xff,
    ;
    assert(m & 7 == m) by (bit_vector)
        requires
            m <= 7,
    ;
}

// ---------------------------------------------------------------------------
// Registration identifiers
// ---------------------------------------------------------------------------

/// The action index that a hot key message's parameter names, if any: the parameter
/// read as an `i32`, less `HK_ID_BASE`, when that lies in `0..HK_COUNT`.
pub open spec fn hotkey_index_spec(wparam: usize) -> Option<usize> {
    let idx = (wparam as i32) as int - HK_ID_BASE as int;
    if 0 <= idx < HK_COUNT {
        Some(idx as usize)
    } else {
        None
    }
}

pub fn hotkey_index(wparam: usize) -> (r: Option<usize>)
    ensures
        r == hotkey_index_spec(wparam),
{
    let idx: i64 = (wparam as i32) as i64 - HK_ID_BASE as i64;
    if 0 <= idx && idx < HK_COUNT as i64 {
        Some(idx as usize)
    } else {
        None
    }
}

/// The identifier that action `i` is registered under.
pub fn hotkey_id(i: usize) -> (id: i32)
    requires
        i < HK_COUNT,
    ensures
        id == HK_ID_BASE + i,
        hotkey_index_spec(id as usize) == Some(i),
{
    let id = HK_ID_BASE + i as i32;
    assert((id as usize) as i32 == id);
    id
}

/// What a shortcut does.
#[derive(Clone, Copy, Debug, PartialEq, Eq, Structural)]
pub enum HotkeyAction {
    /// Show the window, or hide it when it is shown and not minimized.
    ToggleWindow,
    /// Store the clipboard text as a new snippet.
    RegisterClipboard,
    /// Paste history entry `n` (from 0).
    PasteHistory(usize),
    /// Delete history entry `n` (from 0).
    DeleteHistory(usize),
    /// Paste snippet `n` (from 0).
    PasteSnippet(usize),
    /// Toggle "always on top".
    ToggleTopmost,
    /// No action.
    Nothing,
}

pub open spec fn hotkey_action_spec(idx: usize) -> HotkeyAction {
    if idx == 0 {
        HotkeyAction::ToggleWindow
    } else if idx == 1 {
        HotkeyAction::RegisterClipboard
    } else if 2 <= idx <= 10 {
        HotkeyAction::PasteHistory((idx - 2) as usize)
    } else if 11 <= idx <= 19 {
        HotkeyAction::DeleteHistory((idx - 11) as usize)
    } else if 20 <= idx <= 28 {
        HotkeyAction::PasteSnippet((idx - 20) as usize)
    } else if idx == 29 {
        HotkeyAction::ToggleTopmost
    } else {
        HotkeyAction::Nothing
    }
}

/// The action of shortcut `idx`.
pub fn hotkey_action(idx: usize) -> (a: HotkeyAction)
    ensures
        a == hotkey_action_spec(idx),
{
    if idx == 0 {
        HotkeyAction::ToggleWindow
    } else if idx == 1 {
        HotkeyAction::RegisterClipboard
    } else if 2 <= idx && idx <= 10 {
        HotkeyAction::PasteHistory(idx - 2)
    } else if 11 <= idx && idx <= 19 {
        HotkeyAction::DeleteHistory(idx - 11)
    } else if 20 <= idx && idx <= 28 {
        HotkeyAction::PasteSnippet(idx - 20)
    } else if idx == 29 {
        HotkeyAction::ToggleTopmost
    } else {
        HotkeyAction::Nothing
    }
}

// ---------------------------------------------------------------------------
// Names
// ---------------------------------------------------------------------------

/// The label of shortcut action `i`.
pub open spec fn action_label_spec(i: usize) -> Seq<char> {
    if i == 0 {
        "ウィンドウ表示/非表示"@
    } else if i == 1 {
        "クリップボードを定型文に登録"@
    } else if 2 <= i <= 10 {
        "履歴"@ + decimal((i - 1) as nat) + " 貼り付け"@
    } else if 11 <= i <= 19 {
        "履歴"@ + decimal((i - 10) as nat) + " 消去"@
    } else if 20 <= i <= 28 {
        "定型文"@ + decimal((i - 19) as nat) + " 貼り付け"@
    } else {
        "常に手前に表示 切り替え"@
    }
}

pub fn action_label_chars(out: &mut Vec<char>, i: usize)
    ensures
        final(out)@ == old(out)@ + action_label_spec(i),
{
    let ghost start = out@;
    if i == 0 {
        append_str(out, "ウィンドウ表示/非表示");
    } else if i == 1 {
        append_str(out, "クリップボードを定型文に登録");
    } else if 2 <= i && i <= 10 {
        append_str(out, "履歴");
        push_decimal(out, (i - 1) as u64);
        append_str(out, " 貼り付け");
    } else if 11 <= i && i <= 19 {
        append_str(out, "履歴");
        push_decimal(out, (i - 10) as u64);
        append_str(out, " 消去");
    } else if 20 <= i && i <= 28 {
        append_str(out, "定型文");
        push_decimal(out, (i - 19) as u64);
        append_str(out, " 貼り付け");
    } else {
        append_str(out, "常に手前に表示 切り替え");
    }
    assert(out@ =~= start + action_label_spec(i));
}

/// The label of shortcut action `i`.
pub fn action_label(i: usize) -> (s: String)
    ensures
        s@ == action_label_spec(i),
{
    let mut v: Vec<char> = Vec::new();
    action_label_chars(&mut v, i);
    assert(v@ =~= action_label_spec(i));
    string_from_chars(&v)
}

/// The name of a virtual key code: digits and letters stand for themselves, F1-F24 and
/// Num0-Num9 are numbered, a few keys have names, anything else is `0x` and its code in
/// upper-case hexadecimal of at least two digits.
pub open spec fn vk_name_spec(vk: u32) -> Seq<char> {
    if (0x30 <= vk <= 0x39) || (0x41 <= vk <= 0x5A) {
        seq![vk as char]
    } else if 0x70 <= vk <= 0x87 {
        "F"@ + decimal((vk - 0x6F) as nat)
    } else if 0x60 <= vk <= 0x69 {
        "Num"@ + decimal((vk - 0x60) as nat)
    } else if vk == 0x08 {
        "BackSpace"@
    } else if vk == 0x09 {
        "Tab"@
    } else if vk == 0x0D {
        "Enter"@
    } else if vk == 0x20 {
        "Space"@
    } else if vk == 0x21 {
        "PageUp"@
    } else if vk == 0x22 {
        "PageDown"@
    } else if vk == 0x23 {
        "End"@
    } else if vk == 0x24 {
        "Home"@
    } else if vk == 0x25 {
        "←"@
    } else if vk == 0x26 {
        "↑"@
    } else if vk == 0x27 {
        "→"@
    } else if vk == 0x28 {
        "↓"@
    } else if vk == 0x2D {
        "Insert"@
    } else if vk == 0x2E {
        "Delete"@
    } else {
        "0x"@ + hex2(vk as nat)
    }
}

/// The names of the Windows virtual key codes: the editing and cursor keys by their
/// codes (VK_BACK, VK_TAB, VK_RETURN, VK_SPACE, VK_PRIOR, VK_NEXT, VK_END, VK_HOME, the four
/// arrows, VK_INSERT, VK_DELETE), the digit keys by their digit, the letter keys by their
/// capital letter, VK_F1 to VK_F24 as `F1` to `F24`, the numeric pad's digits as `Num0` to
/// `Num9`, and any other code in hexadecimal.
pub proof fn lemma_vk_names(vk: u32)
    ensures
        vk == 0x08 ==> vk_name_spec(vk) == "BackSpace"@,
        vk == 0x09 ==> vk_name_spec(vk) == "Tab"@,
        vk == 0x0D ==> vk_name_spec(vk) == "Enter"@,
        vk == 0x20 ==> vk_name_spec(vk) == "Space"@,
        vk == 0x21 ==> vk_name_spec(vk) == "PageUp"@,
        vk == 0x22 ==> vk_name_spec(vk) == "PageDown"@,
        vk == 0x23 ==> vk_name_spec(vk) == "End"@,
        vk == 0x24 ==> vk_name_spec(vk) == "Home"@,
        vk == 0x25 ==> vk_name_spec(vk) == "←"@,
        vk == 0x26 ==> vk_name_spec(vk) == "↑"@,
        vk == 0x27 ==> vk_name_spec(vk) == "→"@,
        vk == 0x28 ==> vk_name_spec(vk) == "↓"@,
        vk == 0x2D ==> vk_name_spec(vk) == "Insert"@,
        vk == 0x2E ==> vk_name_spec(vk) == "Delete"@,
        0x30 <= vk <= 0x39 ==> vk_name_spec(vk) == decimal((vk - 0x30) as nat),
        0x41 <= vk <= 0x5A ==> vk_name_spec(vk).len() == 1 && 'A' <= vk_name_spec(vk)[0] <= 'Z'
            && vk_name_spec(vk)[0] as u32 == vk,
        1 <= vk - 0x6F <= 24 ==> vk_name_spec(vk) == "F"@ + decimal((vk - 0x6F) as nat),
        0x60 <= vk <= 0x69 ==> vk_name_spec(vk) == "Num"@ + decimal((vk - 0x60) as nat),
        !(vk == 0x08 || vk == 0x09 || vk == 0x0D || (0x20 <= vk <= 0x28) || vk == 0x2D || vk == 0x2E
            || (0x30 <= vk <= 0x39) || (0x41 <= vk <= 0x5A) || (0x60 <= vk <= 0x69) || (0x70 <= vk
            <= 0x87)) ==> vk_name_spec(vk) == "0x"@ + hex2(vk as nat),
{
    if 0x30 <= vk <= 0x39 {
        assert(decimal((vk - 0x30) as nat) == seq![digit_char((vk - 0x30) as nat)]);
    }
}

/// The name of an assignment with a key is the held modifiers' prefixes, in the order
/// `Ctrl+`, `Shift+`, `Alt+`, followed by the key's own name; without a key it is `(なし)`,
/// whatever the modifiers.
pub proof fn lemma_key_name(m: u32, vk: u32)
    ensures
        vk == 0 ==> key_name_spec(m, vk) == "(なし)"@,
        vk != 0 ==> key_name_spec(m, vk) == (if m & MOD_CONTROL != 0 { "Ctrl+"@ } else { ""@ })
            + (if m & MOD_SHIFT != 0 { "Shift+"@ } else { ""@ }) + (if m & MOD_ALT != 0 {
            "Alt+"@
        } else {
            ""@
        }) + vk_name_spec(vk),
        vk != 0 && m == MOD_CONTROL ==> key_name_spec(m, vk) == "Ctrl+"@ + vk_name_spec(vk),
        vk != 0 && m == 0 ==> key_name_spec(m, vk) == vk_name_spec(vk),
{
    reveal_strlit("");
    assert(2u32 & 2u32 != 0) by (bit_vector);
    assert(2u32 & 4u32 == 0) by (bit_vector);
    assert(2u32 & 1u32 == 0) by (bit_vector);
    assert(0u32 & 2u32 == 0) by (bit_vector);
    assert(0u32 & 4u32 == 0) by (bit_vector);
    assert(0u32 & 1u32 == 0) by (bit_vector);
    assert(""@ =~= Seq::<char>::empty());
    if vk != 0 {
        let n = vk_name_spec(vk);
        assert(Seq::<char>::empty() + Seq::<char>::empty() + n =~= n);
        assert("Ctrl+"@ + Seq::<char>::empty() + Seq::<char>::empty() + n =~= "Ctrl+"@ + n);
    }
}

pub fn vk_name_chars(out: &mut Vec<char>, vk: u32)
    ensures
        final(out)@ == old(out)@ + vk_name_spec(vk),
{
    let ghost start = out@;
    if (0x30 <= vk && vk <= 0x39) || (0x41 <= vk && vk <= 0x5A) {
        let b: u8 = vk as u8;
        out.push(b as char);
    } else if 0x70 <= vk && vk <= 0x87 {
        append_str(out, "F");
        push_decimal(out, (vk - 0x6F) as u64);
    } else if 0x60 <= vk && vk <= 0x69 {
        append_str(out, "Num");
        push_decimal(out, (vk - 0x60) as u64);
    } else if vk == 0x08 {
        append_str(out, "BackSpace");
    } else if vk == 0x09 {
        append_str(out, "Tab");
    } else if vk == 0x0D {
        append_str(out, "Enter");
    } else if vk == 0x20 {
        append_str(out, "Space");
    } else if vk == 0x21 {
        append_str(out, "PageUp");
    } else if vk == 0x22 {
        append_str(out, "PageDown");
    } else if vk == 0x23 {
        append_str(out, "End");
    } else if vk == 0x24 {
        append_str(out, "Home");
    } else if vk == 0x25 {
        append_str(out, "←");
    } else if vk == 0x26 {
        append_str(out, "↑");
    } else if vk == 0x27 {
        append_str(out, "→");
    } else if vk == 0x28 {
        append_str(out, "↓");
    } else if vk == 0x2D {
        append_str(out, "Insert");
    } else if vk == 0x2E {
        append_str(out, "Delete");
    } else {
        append_str(out, "0x");
        push_hex2(out, vk as u64);
    }
    assert(out@ =~= start + vk_name_spec(vk));
}

/// The name of a virtual key code.
pub fn vk_name(vk: u32) -> (s: String)
    ensures
        s@ == vk_name_spec(vk),
{
    let mut v: Vec<char> = Vec::new();
    vk_name_chars(&mut v, vk);
    assert(v@ =~= vk_name_spec(vk));
    string_from_chars(&v)
}

/// The name of an assignment: `(なし)` when there is no key, else the held modifiers
/// (`Ctrl+`, `Shift+`, `Alt+`, in that order) and the key's name.
pub open spec fn key_name_spec(m: u32, vk: u32) -> Seq<char> {
    if vk == 0 {
        "(なし)"@
    } else {
        (if m & MOD_CONTROL != 0 { "Ctrl+"@ } else { Seq::empty() }) + (if m & MOD_SHIFT != 0 {
            "Shift+"@
        } else {
            Seq::empty()
        }) + (if m & MOD_ALT != 0 { "Alt+"@ } else { Seq::empty() }) + vk_name_spec(vk)
    }
}

pub fn key_name_chars(out: &mut Vec<char>, m: u32, vk: u32)
    ensures
        final(out)@ == old(out)@ + key_name_spec(m, vk),
{
    let ghost start = out@;
    if vk == 0 {
        append_str(out, "(なし)");
        assert(out@ =~= start + key_name_spec(m, vk));
        return ;
    }
    if m & MOD_CONTROL != 0 {
        append_str(out, "Ctrl+");
    }
    let ghost a = out@;
    if m & MOD_SHIFT != 0 {
        append_str(out, "Shift+");
    }
    let ghost b = out@;
    if m & MOD_ALT != 0 {
        append_str(out, "Alt+");
    }
    let ghost c = out@;
    vk_name_chars(out, vk);
    assert(out@ =~= start + key_name_spec(m, vk));
}

/// The name of an assignment.
pub fn key_name(m: u32, vk: u32) -> (s: String)
    ensures
        s@ == key_name_spec(m, vk),
{
    let mut v: Vec<char> = Vec::new();
    key_name_chars(&mut v, m, vk);
    assert(v@ =~= key_name_spec(m, vk));
    string_from_chars(&v)
}

/// The shortcut table: for each `n` from 1 to 9 there is an action that pastes history
/// entry `n`, labelled so, with Ctrl+Alt+`n` as its default key; an action that deletes
/// history entry `n`, and one that pastes snippet `n`, both labelled so and with no
/// default key.
pub proof fn lemma_numbered_shortcuts(n: usize)
    requires
        1 <= n <= 9,
    ensures
        hotkey_action_spec((n + 1) as usize) == HotkeyAction::PasteHistory((n - 1) as usize),
        action_label_spec((n + 1) as usize) == "履歴"@ + decimal(n as nat) + " 貼り付け"@,
        key_name_spec(default_hotkeys_spec()[n + 1].0, default_hotkeys_spec()[n + 1].1)
            == "Ctrl+Alt+"@ + decimal(n as nat),
        hotkey_action_spec((n + 10) as usize) == HotkeyAction::DeleteHistory((n - 1) as usize),
        action_label_spec((n + 10) as usize) == "履歴"@ + decimal(n as nat) + " 消去"@,
        default_hotkeys_spec()[n + 10].1 == 0,
        hotkey_action_spec((n + 19) as usize) == HotkeyAction::PasteSnippet((n - 1) as usize),
        action_label_spec((n + 19) as usize) == "定型文"@ + decimal(n as nat) + " 貼り付け"@,
        default_hotkeys_spec()[n + 19].1 == 0,
{
    reveal_strlit("Ctrl+");
    reveal_strlit("Alt+");
    reveal_strlit("Ctrl+Alt+");
    let k = default_hotkeys_spec()[n + 1];
    assert(k == (MOD_CONTROL | MOD_ALT, (0x30 + n) as u32));
    assert((2u32 | 1u32) & 2u32 != 0 && (2u32 | 1u32) & 4u32 == 0 && (2u32 | 1u32) & 1u32 != 0)
        by (bit_vector);
    assert(vk_name_spec(k.1) == decimal(n as nat));
    assert(key_name_spec(k.0, k.1) =~= "Ctrl+Alt+"@ + decimal(n as nat));
}

/// The unnumbered shortcuts: the first action shows or hides the window and has no
/// default key; the second stores the clipboard as a snippet, with Ctrl+Alt+V as its
/// default key; the last one switches "always on top" and has no default key; an index past
/// the table does nothing.
pub proof fn lemma_other_shortcuts(i: usize)
    ensures
        hotkey_action_spec(0) == HotkeyAction::ToggleWindow,
        key_name_spec(default_hotkeys_spec()[0].0, default_hotkeys_spec()[0].1) == "(なし)"@,
        hotkey_action_spec(1) == HotkeyAction::RegisterClipboard,
        key_name_spec(default_hotkeys_spec()[1].0, default_hotkeys_spec()[1].1) == "Ctrl+Alt+V"@,
        hotkey_action_spec((HK_COUNT - 1) as usize) == HotkeyAction::ToggleTopmost,
        key_name_spec(default_hotkeys_spec()[HK_COUNT - 1].0, default_hotkeys_spec()[HK_COUNT
            - 1].1) == "(なし)"@,
        i >= HK_COUNT ==> hotkey_action_spec(i) == HotkeyAction::Nothing,
        default_hotkeys_spec().len() == HK_COUNT,
{
    reveal_strlit("Ctrl+");
    reveal_strlit("Alt+");
    reveal_strlit("Ctrl+Alt+V");
    let k = default_hotkeys_spec()[1];
    assert((2u32 | 1u32) & 2u32 != 0 && (2u32 | 1u32) & 4u32 == 0 && (2u32 | 1u32) & 1u32 != 0)
        by (bit_vector);
    assert(vk_name_spec(k.1) == seq!['V']);
    assert(key_name_spec(k.0, k.1) =~= "Ctrl+Alt+V"@);
}

/// The row of the shortcut list: the action's label, a tab, and the key's name.
pub open spec fn hk_list_label_spec(i: usize, m: u32, vk: u32) -> Seq<char> {
    action_label_spec(i) + seq!['\t'] + key_name_spec(m, vk)
}

pub fn hk_list_label(i: usize, m: u32, vk: u32) -> (s: String)
    ensures
        s@ == hk_list_label_spec(i, m, vk),
{
    let mut v: Vec<char> = Vec::new();
    action_label_chars(&mut v, i);
    v.push('\t');
    key_name_chars(&mut v, m, vk);
    assert(v@ =~= hk_list_label_spec(i, m, vk));
    string_from_chars(&v)
}

/// One line of the report on shortcuts that could not be registered.
pub open spec fn failed_line_spec(i: usize, m: u32, vk: u32) -> Seq<char> {
    "・"@ + action_label_spec(i) + " ("@ + key_name_spec(m, vk) + ")"@
}

/// The report on shortcuts that could not be registered: a heading line, then one line
/// per failed action, in order.
pub open spec fn failed_hotkeys_message_spec(failed: Seq<usize>, hotkeys: Seq<(u32, u32)>) -> Seq<
    char,
> {
    "以下のショートカットキーは他のアプリで使用中のため登録できませんでした:\n"@ + join_with_newlines(
        failed.map_values(|i: usize| failed_line_spec(i, hotkeys[i as int].0, hotkeys[i as int].1)),
    )
}

pub fn failed_hotkeys_message(failed: &Vec<usize>, hotkeys: &Vec<(u32, u32)>) -> (s: String)
    requires
        forall|k: int| 0 <= k < failed.len() ==> failed@[k] < hotkeys.len(),
    ensures
        s@ == failed_hotkeys_message_spec(failed@, hotkeys@),
{
    let ghost parts = failed@.map_values(
        |i: usize| failed_line_spec(i, hotkeys@[i as int].0, hotkeys@[i as int].1),
    );
    let mut lines: Vec<Vec<char>> = Vec::new();
    for k in 0..failed.len()
        invariant
            forall|k: int| 0 <= k < failed.len() ==> failed@[k] < hotkeys.len(),
            parts == failed@.map_values(
                |i: usize| failed_line_spec(i, hotkeys@[i as int].0, hotkeys@[i as int].1),
            ),
            views(lines@) == parts.take(k as int),
    {
        let i = failed[k];
        let (m, vk) = hotkeys[i];
        let mut line: Vec<char> = Vec::new();
        append_str(&mut line, "・");
        action_label_chars(&mut line, i);
        append_str(&mut line, " (");
        key_name_chars(&mut line, m, vk);
        append_str(&mut line, ")");
        assert(line@ =~= failed_line_spec(i, m, vk));
        let ghost prev = views(lines@);
        lines.push(line);
        assert(views(lines@) =~= prev.push(parts[k as int]));
        assert(parts.take(k + 1) =~= parts.take(k as int).push(parts[k as int]));
    }
    assert(parts.take(failed.len() as int) =~= parts);
    let mut v: Vec<char> = Vec::new();
    append_str(&mut v, "以下のショートカットキーは他のアプリで使用中のため登録できませんでした:\n");
    let body = join_newline_vec(&lines);
    append_chars(&mut v, &body);
    assert(v@ =~= failed_hotkeys_message_spec(failed@, hotkeys@));
    string_from_chars(&v)
}

} // verus!
