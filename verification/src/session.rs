//! The running application's data and what each user action does to it: recording
//! clipboard text, pasting, storing, editing and deleting items, the image history,
//! the mode switch, and applying the settings dialog.
use vstd::prelude::*;
use crate::hotkeys::HK_COUNT;
use crate::layout::{fits_i32, image_mode_window, image_mode_window_ok, image_mode_window_spec};
use crate::storage::{strings, ClipState, StateModel, FONT_MAX, FONT_MIN, ITEMS_MAX, ITEMS_MIN};
use crate::text::{
    append_chars, chars_of, display_chars, display_spec, is_digit_spec, lemma_decimal,
    lemma_parse_decimal, lemma_split_once_concat, parse_unsigned, parse_unsigned_chars,
    push_decimal, decimal, split_once, string_from_chars, trim, trim_chars,
};

verus! {

/// Which list the window shows.
#[derive(Clone, Copy, Debug, PartialEq, Eq, Structural)]
pub enum Tab {
    History,
    Snippet,
    Image,
}

pub open spec fn next_tab_spec(t: Tab) -> Tab {
    match t {
        Tab::History => Tab::Snippet,
        Tab::Snippet => Tab::Image,
        Tab::Image => Tab::History,
    }
}

/// The mode button cycles history, snippets, images.
pub fn next_tab(t: Tab) -> (r: Tab)
    ensures
        r == next_tab_spec(t),
{
    match t {
        Tab::History => Tab::Snippet,
        Tab::Snippet => Tab::Image,
        Tab::Image => Tab::History,
    }
}

/// Three presses of the mode button come back to the mode they started from, and the
/// three modes are all reached.
pub proof fn lemma_tab_cycle(t: Tab)
    ensures
        next_tab_spec(next_tab_spec(next_tab_spec(t))) == t,
        next_tab_spec(t) != t,
        next_tab_spec(next_tab_spec(t)) != t,
{
}

pub open spec fn tab_label_spec(t: Tab) -> Seq<char> {
    match t {
        Tab::History => "履歴"@,
        Tab::Snippet => "定型文"@,
        Tab::Image => "画像"@,
    }
}

/// The caption of the mode button.
pub fn tab_label(t: Tab) -> (s: String)
    ensures
        s@ == tab_label_spec(t),
{
    let v = match t {
        Tab::History => chars_of("履歴"),
        Tab::Snippet => chars_of("定型文"),
        Tab::Image => chars_of("画像"),
    };
    string_from_chars(&v)
}

/// How many images are kept in memory.
pub const IMAGE_MAX: usize = 10;

/// A captured image: its PNG bytes, a thumbnail handle of the caller's type, and the
/// thumbnail's size.
pub struct ImageEntry<T> {
    pub png: Vec<u8>,
    pub thumb: T,
    pub tw: i32,
    pub th: i32,
}

/// The running application's data: the saved data, the shown mode, the images (newest
/// first) and the selected one (-1: none), whether the next clipboard notice is of the
/// application's own write, the last seen clipboard sequence number, and the window
/// rectangle saved on entering image mode.
pub struct Session<T> {
    pub data: ClipState,
    pub tab: Tab,
    pub images: Vec<ImageEntry<T>>,
    pub img_selected: isize,
    pub suppress: bool,
    pub clip_seq: u32,
    pub saved_rect: Option<(i32, i32, i32, i32)>,
}

/// The PNG contents of a list of images.
pub open spec fn pngs<T>(v: Seq<ImageEntry<T>>) -> Seq<Seq<u8>> {
    v.map_values(|e: ImageEntry<T>| e.png@)
}

/// The first index at which `t` occurs in `h`.
pub open spec fn find_index(h: Seq<Seq<char>>, t: Seq<char>) -> Option<int>
    decreases h.len(),
{
    if h.len() == 0 {
        None
    } else if h[0] == t {
        Some(0)
    } else {
        match find_index(h.drop_first(), t) {
            Some(i) => Some(i + 1),
            None => None,
        }
    }
}

proof fn lemma_find_index_at(h: Seq<Seq<char>>, t: Seq<char>, i: int)
    requires
        0 <= i <= h.len(),
        forall|j: int| 0 <= j < i ==> h[j] != t,
    ensures
        i < h.len() && h[i] == t ==> find_index(h, t) == Some(i),
        i == h.len() ==> find_index(h, t) is None,
    decreases i,
{
    if i > 0 {
        lemma_find_index_at(h.drop_first(), t, i - 1);
    }
}

/// `s` with its first `n` entries kept, when it has more (`Vec::truncate`).
pub open spec fn truncated<A>(s: Seq<A>, n: nat) -> Seq<A> {
    if s.len() > n {
        s.take(n as int)
    } else {
        s
    }
}

/// What recording a copied text does to the history, or `None` when it leaves the history
/// unchanged: empty text is ignored; a text already in the history moves to the front
/// when "move to top" is on and it is not already first, and otherwise nothing changes;
/// a new text goes to the front and the history is cut to its limit.
pub open spec fn record_text_spec(h: Seq<Seq<char>>, t: Seq<char>, move_to_top: bool, max: nat) -> Option<
    Seq<Seq<char>>,
> {
    if t.len() == 0 {
        None
    } else {
        match find_index(h, t) {
            Some(pos) => if move_to_top && pos > 0 {
                Some(seq![t] + h.remove(pos))
            } else {
                None
            },
            None => Some(truncated(seq![t] + h, max)),
        }
    }
}

/// Whether no text occurs twice.
pub open spec fn distinct(h: Seq<Seq<char>>) -> bool {
    forall|i: int, j: int| 0 <= i < j < h.len() ==> h[i] != h[j]
}

/// After a recording that changed the history, the copied text is its first entry, and
/// the history holds no more entries than before or than its limit; a history without
/// repeated entries stays without them.
pub proof fn lemma_record_text(h: Seq<Seq<char>>, t: Seq<char>, move_to_top: bool, max: nat)
    requires
        max >= 1,
        record_text_spec(h, t, move_to_top, max) is Some,
    ensures
        ({
            let h2 = record_text_spec(h, t, move_to_top, max)->0;
            &&& h2.len() >= 1
            &&& h2[0] == t
            &&& h2.len() <= if h.len() + 1 <= max { h.len() + 1 } else if h.len() > max { h.len() } else { max }
            &&& distinct(h) ==> distinct(h2)
            &&& forall|i: int| 0 <= i < h2.len() ==> #[trigger] h2[i] == t || h.contains(h2[i])
        }),
{
    let h2 = record_text_spec(h, t, move_to_top, max)->0;
    match find_index(h, t) {
        Some(pos) => {
            lemma_find_index_bounds(h, t);
            let r = h.remove(pos);
            assert(h2 == seq![t] + r);
            assert forall|i: int| 0 <= i < h2.len() implies #[trigger] h2[i] == t || h.contains(
                h2[i],
            ) by {
                if i > 0 {
                    if i - 1 < pos {
                        assert(h2[i] == h[i - 1]);
                    } else {
                        assert(h2[i] == h[i]);
                    }
                }
            }
            if distinct(h) {
                assert forall|i: int, j: int| 0 <= i < j < h2.len() implies h2[i] != h2[j] by {
                    let hi = if i - 1 < pos { i - 1 } else { i };
                    let hj = if j - 1 < pos { j - 1 } else { j };
                    if i == 0 {
                        assert(h[pos] == t);
                        assert(h2[j] == h[hj]);
                        assert(hj != pos);
                    } else {
                        assert(h2[i] == h[hi]);
                        assert(h2[j] == h[hj]);
                    }
                }
            }
        },
        None => {
            lemma_find_index_none(h, t);
            let c = seq![t] + h;
            assert forall|i: int| 0 <= i < h2.len() implies #[trigger] h2[i] == t || h.contains(
                h2[i],
            ) by {
                if i > 0 {
                    assert(h2[i] == h[i - 1]);
                }
            }
            if distinct(h) {
                assert forall|i: int, j: int| 0 <= i < j < h2.len() implies h2[i] != h2[j] by {
                    if i == 0 {
                        assert(h2[j] == h[j - 1]);
                    } else {
                        assert(h2[i] == h[i - 1]);
                        assert(h2[j] == h[j - 1]);
                    }
                }
            }
        },
    }
}

/// Recording a text that already occurs at `pos > 0` (and nowhere before) with "move to
/// top" on moves that entry to the front: the history keeps its length, the entries in
/// front of it shift back by one, the entries behind it stay where they were, and the
/// history holds the same texts as before, each as often.
pub proof fn lemma_record_moves_to_top(h: Seq<Seq<char>>, t: Seq<char>, pos: int, max: nat)
    requires
        t.len() > 0,
        0 < pos < h.len(),
        h[pos] == t,
        forall|j: int| 0 <= j < pos ==> h[j] != t,
    ensures
        record_text_spec(h, t, true, max) is Some,
        ({
            let r = record_text_spec(h, t, true, max)->0;
            &&& r.len() == h.len()
            &&& r[0] == t
            &&& forall|i: int| 0 <= i < pos ==> #[trigger] r[i + 1] == h[i]
            &&& forall|i: int| pos < i < h.len() ==> #[trigger] r[i] == h[i]
            &&& r.to_multiset() == h.to_multiset()
        }),
{
    lemma_find_index_at(h, t, pos);
    let r = record_text_spec(h, t, true, max)->0;
    assert forall|i: int| 0 <= i < pos implies #[trigger] r[i + 1] == h[i] by {
        assert(r[i + 1] == h.remove(pos)[i]);
    }
    assert forall|i: int| pos < i < h.len() implies #[trigger] r[i] == h[i] by {
        assert(r[i] == h.remove(pos)[i - 1]);
    }
    let rest = h.remove(pos);
    assert(r =~= rest.insert(0, t));
    vstd::seq_lib::to_multiset_remove(h, pos);
    vstd::seq_lib::to_multiset_insert(rest, 0, t);
    vstd::seq_lib::to_multiset_contains(h, t);
    assert(h.contains(t));
    broadcast use vstd::multiset::group_multiset_axioms;
    assert(r.to_multiset() =~= h.to_multiset());
}

/// Recording a non-empty text that is not in the history puts it in front of all the
/// entries, which keep their order, and cuts the history to its limit.
pub proof fn lemma_record_new_text(h: Seq<Seq<char>>, t: Seq<char>, move_to_top: bool, max: nat)
    requires
        t.len() > 0,
        !h.contains(t),
    ensures
        record_text_spec(h, t, move_to_top, max) is Some,
        ({
            let r = record_text_spec(h, t, move_to_top, max)->0;
            &&& r.len() == if h.len() + 1 <= max { h.len() + 1 } else { max }
            &&& r.len() > 0 ==> r[0] == t
            &&& forall|i: int| 0 < i < r.len() ==> #[trigger] r[i] == h[i - 1]
        }),
{
    assert forall|j: int| 0 <= j < h.len() implies h[j] != t by {
        if h[j] == t {
            assert(h.contains(t));
        }
    }
    lemma_find_index_at(h, t, h.len() as int);
}

/// Recording leaves the history as it is exactly when the text is empty, or when it is
/// already in the history and either it is already the first entry or "move to top" is off.
pub proof fn lemma_record_unchanged(h: Seq<Seq<char>>, t: Seq<char>, move_to_top: bool, max: nat)
    ensures
        (record_text_spec(h, t, move_to_top, max) is None) == (t.len() == 0 || (h.contains(t) && (
        !move_to_top || h[0] == t))),
{
    lemma_find_index_bounds(h, t);
    lemma_find_index_none(h, t);
    if h.contains(t) {
        assert(find_index(h, t) is Some);
        if h[0] == t {
            assert(find_index(h, t) == Some(0int));
        }
    }
}

proof fn lemma_find_index_bounds(h: Seq<Seq<char>>, t: Seq<char>)
    ensures
        find_index(h, t) matches Some(i) ==> 0 <= i < h.len() && h[i] == t,
    decreases h.len(),
{
    if h.len() > 0 {
        lemma_find_index_bounds(h.drop_first(), t);
    }
}

proof fn lemma_find_index_none(h: Seq<Seq<char>>, t: Seq<char>)
    ensures
        find_index(h, t) is None ==> forall|i: int| 0 <= i < h.len() ==> h[i] != t,
    decreases h.len(),
{
    if h.len() > 0 {
        lemma_find_index_none(h.drop_first(), t);
        if find_index(h, t) is None {
            assert forall|i: int| 0 <= i < h.len() implies h[i] != t by {
                if i > 0 {
                    assert(h[i] == h.drop_first()[i - 1]);
                }
            }
        }
    }
}

/// What storing a text as a snippet does: it is appended when it is not empty and the
/// snippets are below their limit.
pub open spec fn register_snippet_spec(s: Seq<Seq<char>>, t: Seq<char>, max: nat) -> Option<
    Seq<Seq<char>>,
> {
    if t.len() > 0 && s.len() < max {
        Some(s.push(t))
    } else {
        None
    }
}

/// Keeping the first `n` entries: the result is as long as the smaller of `n` and the
/// sequence, and each entry it has is the sequence's entry at the same place.
pub proof fn lemma_truncated<A>(s: Seq<A>, n: nat)
    ensures
        truncated(s, n).len() == if s.len() <= n { s.len() } else { n },
        forall|i: int| 0 <= i < truncated(s, n).len() ==> #[trigger] truncated(s, n)[i] == s[i],
{
}

/// Storing a text as a snippet adds it exactly when it is not empty and the snippets are
/// below their limit; it then becomes the last snippet, behind all the others, which keep
/// their places.
pub proof fn lemma_register_snippet(s: Seq<Seq<char>>, t: Seq<char>, max: nat)
    ensures
        (register_snippet_spec(s, t, max) is Some) == (t.len() > 0 && s.len() < max),
        register_snippet_spec(s, t, max) matches Some(r) ==> {
            &&& r.len() == s.len() + 1
            &&& r.last() == t
            &&& forall|i: int| 0 <= i < s.len() ==> #[trigger] r[i] == s[i]
        },
{
}

/// The outcome of copying the selected history entry to the snippets.
#[derive(Clone, Copy, Debug, PartialEq, Eq, Structural)]
pub enum ToSnippet {
    /// No history entry is selected at that index.
    NoItem,
    /// The snippets are at their limit: nothing was added.
    Full,
    /// The entry was appended to the snippets and the snippet list is shown.
    Added,
}

/// What reading the clipboard after a change notice came to.
#[derive(Clone, Copy, Debug, PartialEq, Eq, Structural)]
pub enum ClipboardOutcome {
    /// The text changed the history (it is to be saved and the list refreshed).
    HistoryChanged,
    /// The text left the history as it was.
    Unchanged,
    /// There was no text: an image may be captured instead.
    NoText,
}

/// The settings that the settings dialog gives back.
pub struct SettingsResult {
    pub history_max: usize,
    pub snippet_max: usize,
    pub font_size: u32,
    pub topmost: bool,
    pub move_to_top: bool,
    pub hotkeys: Vec<(u32, u32)>,
}

/// What the settings dialog's fields give: the three numbers, trimmed, must parse and lie
/// in their ranges (else the dialog's result is dropped); a missing check box counts as
/// checked.
pub open spec fn validate_settings_spec(
    results: Seq<Seq<char>>,
    hotkeys: Seq<(u32, u32)>,
    checks: Seq<bool>,
) -> Option<(usize, usize, u32, bool, bool, Seq<(u32, u32)>)> {
    if results.len() < 3 {
        None
    } else {
        match (
            parse_unsigned(trim(results[0]), usize::MAX as nat),
            parse_unsigned(trim(results[1]), usize::MAX as nat),
            parse_unsigned(trim(results[2]), u32::MAX as nat),
        ) {
            (Some(h), Some(s), Some(f)) => if ITEMS_MIN <= h <= ITEMS_MAX && ITEMS_MIN <= s
                <= ITEMS_MAX && FONT_MIN <= f <= FONT_MAX {
                Some(
                    (
                        h as usize,
                        s as usize,
                        f as u32,
                        if checks.len() > 0 { checks[0] } else { true },
                        if checks.len() > 1 { checks[1] } else { true },
                        hotkeys,
                    ),
                )
            } else {
                None
            },
            _ => None,
        }
    }
}

fn parse_field(s: &String, max: u64) -> (r: Option<u64>)
    ensures
        match r {
            Some(v) => parse_unsigned(trim(s@), max as nat) == Some(v as nat),
            None => parse_unsigned(trim(s@), max as nat) is None,
        },
{
    let v = chars_of(s.as_str());
    let t = trim_chars(&v);
    parse_unsigned_chars(&t, max)
}

/// Reads the settings dialog's fields: the texts of its three number fields, the shortcut
/// assignments and the states of its check boxes.
pub fn validate_settings(results: &Vec<String>, hotkeys: Vec<(u32, u32)>, checks: &Vec<bool>) -> (r:
    Option<SettingsResult>)
    ensures
        match r {
            Some(v) => validate_settings_spec(strings(results@), hotkeys@, checks@) == Some(
                (v.history_max, v.snippet_max, v.font_size, v.topmost, v.move_to_top, v.hotkeys@),
            ),
            None => validate_settings_spec(strings(results@), hotkeys@, checks@) is None,
        },
        r matches Some(v) ==> ITEMS_MIN <= v.history_max <= ITEMS_MAX && ITEMS_MIN <= v.snippet_max
            <= ITEMS_MAX && FONT_MIN <= v.font_size <= FONT_MAX,
{
    if results.len() < 3 {
        return None;
    }
    let h = parse_field(&results[0], usize::MAX as u64);
    let s = parse_field(&results[1], usize::MAX as u64);
    let f = parse_field(&results[2], u32::MAX as u64);
    match (h, s, f) {
        (Some(h), Some(s), Some(f)) => {
            if ITEMS_MIN as u64 <= h && h <= ITEMS_MAX as u64 && ITEMS_MIN as u64 <= s && s
                <= ITEMS_MAX as u64 && FONT_MIN as u64 <= f && f <= FONT_MAX as u64 {
                let topmost = if checks.len() > 0 {
                    checks[0]
                } else {
                    true
                };
                let move_to_top = if checks.len() > 1 {
                    checks[1]
                } else {
                    true
                };
                Some(
                    SettingsResult {
                        history_max: h as usize,
                        snippet_max: s as usize,
                        font_size: f as u32,
                        topmost,
                        move_to_top,
                        hotkeys,
                    },
                )
            } else {
                None
            }
        },
        _ => None,
    }
}

/// The data after applying the settings dialog's result: the limits, font size and
/// switches are taken over, the history is cut to its new limit, and the first
/// `HK_COUNT` given assignments replace the current ones.
pub open spec fn apply_settings_spec(
    m: StateModel,
    r: (usize, usize, u32, bool, bool, Seq<(u32, u32)>),
) -> StateModel {
    StateModel {
        history_max: r.0,
        snippet_max: r.1,
        font_size: r.2,
        topmost: r.3,
        move_to_top: r.4,
        history: truncated(m.history, r.0 as nat),
        hotkeys: Seq::new(
            m.hotkeys.len(),
            |i: int|
                if i < r.5.len() {
                    r.5[i]
                } else {
                    m.hotkeys[i]
                },
        ),
        ..m
    }
}

/// A result of the settings dialog always has its limits and its font size in their
/// ranges, and its numbers are those that the trimmed fields spell; there is none when a
/// field is missing, does not parse, or holds a number out of its range.
pub proof fn lemma_validate_settings(results: Seq<Seq<char>>, hotkeys: Seq<(u32, u32)>, checks: Seq<bool>)
    ensures
        validate_settings_spec(results, hotkeys, checks) matches Some(v) ==> {
            &&& ITEMS_MIN <= v.0 <= ITEMS_MAX
            &&& ITEMS_MIN <= v.1 <= ITEMS_MAX
            &&& FONT_MIN <= v.2 <= FONT_MAX
            &&& parse_unsigned(trim(results[0]), usize::MAX as nat) == Some(v.0 as nat)
            &&& parse_unsigned(trim(results[1]), usize::MAX as nat) == Some(v.1 as nat)
            &&& parse_unsigned(trim(results[2]), u32::MAX as nat) == Some(v.2 as nat)
            &&& v.3 == (checks.len() == 0 || checks[0])
            &&& v.4 == (checks.len() <= 1 || checks[1])
            &&& v.5 == hotkeys
        },
        results.len() < 3 ==> validate_settings_spec(results, hotkeys, checks) is None,
        results.len() >= 3 && (parse_unsigned(trim(results[0]), usize::MAX as nat) matches Some(
            n,
        ) && (n < ITEMS_MIN || n > ITEMS_MAX)) ==> validate_settings_spec(results, hotkeys, checks) is None,
        results.len() >= 3 && (parse_unsigned(trim(results[1]), usize::MAX as nat) matches Some(
            n,
        ) && (n < ITEMS_MIN || n > ITEMS_MAX)) ==> validate_settings_spec(results, hotkeys, checks) is None,
        results.len() >= 3 && (parse_unsigned(trim(results[2]), u32::MAX as nat) matches Some(n) && (
        n < FONT_MIN || n > FONT_MAX)) ==> validate_settings_spec(results, hotkeys, checks) is None,
{
}

/// Applying the settings takes over the limits, the font size and the switches, keeps the
/// snippets as they are, keeps the newest entries of the history up to the new history
/// limit, and replaces the shortcut assignments one for one by those given, as far as
/// they go.
pub proof fn lemma_apply_settings(m: StateModel, r: (usize, usize, u32, bool, bool, Seq<(u32, u32)>))
    ensures
        ({
            let m2 = apply_settings_spec(m, r);
            &&& m2.history_max == r.0
            &&& m2.snippet_max == r.1
            &&& m2.font_size == r.2
            &&& m2.topmost == r.3
            &&& m2.move_to_top == r.4
            &&& m2.snippets == m.snippets
            &&& m2.history.len() == if m.history.len() <= r.0 { m.history.len() } else { r.0 as nat }
            &&& forall|i: int| 0 <= i < m2.history.len() ==> #[trigger] m2.history[i] == m.history[i]
            &&& m2.hotkeys.len() == m.hotkeys.len()
            &&& forall|i: int|
                0 <= i < m.hotkeys.len() ==> #[trigger] m2.hotkeys[i] == if i < r.5.len() {
                    r.5[i]
                } else {
                    m.hotkeys[i]
                }
        }),
{
}

/// One row of the item list: its number from 1, a colon, and the item's display form.
pub open spec fn list_item_spec(i: nat, s: Seq<char>) -> Seq<char> {
    decimal(i + 1) + ": "@ + display_spec(s)
}

/// The rows of a list of items.
pub open spec fn list_rows_spec(items: Seq<Seq<char>>) -> Seq<Seq<char>> {
    Seq::new(items.len(), |i: int| list_item_spec(i as nat, items[i]))
}

/// The list has one row per item, and row `i` reads as the number `i + 1`, a colon, a
/// space and the item's display form.
pub proof fn lemma_list_row_number(items: Seq<Seq<char>>, i: int)
    requires
        0 <= i < items.len(),
        i + 1 <= usize::MAX,
    ensures
        list_rows_spec(items).len() == items.len(),
        split_once(list_rows_spec(items)[i], ':') == Some(
            (decimal((i + 1) as nat), " "@ + display_spec(items[i])),
        ),
        parse_unsigned(decimal((i + 1) as nat), usize::MAX as nat) == Some((i + 1) as nat),
{
    reveal_strlit(": ");
    reveal_strlit(" ");
    let d = decimal((i + 1) as nat);
    lemma_decimal((i + 1) as nat);
    lemma_parse_decimal((i + 1) as nat, usize::MAX as nat);
    assert forall|k: int| 0 <= k < d.len() implies d[k] != ':' by {
        assert(is_digit_spec(d[k]));
    }
    lemma_split_once_concat(d, ':', " "@ + display_spec(items[i]));
    assert(list_rows_spec(items)[i] =~= d + seq![':'] + (" "@ + display_spec(items[i])));
}

fn bytes_eq(a: &Vec<u8>, b: &Vec<u8>) -> (r: bool)
    ensures
        r == (a@ == b@),
{
    if a.len() != b.len() {
        return false;
    }
    for i in 0..a.len()
        invariant
            a.len() == b.len(),
            forall|j: int| 0 <= j < i ==> a@[j] == b@[j],
    {
        if a[i] != b[i] {
            return false;
        }
    }
    assert(a@ =~= b@);
    true
}

impl<T> Session<T> {
    /// The running data starts in history mode with no images and nothing selected.
    pub fn new(data: ClipState) -> (s: Self)
        ensures
            s.data == data,
            s.tab == Tab::History,
            s.images@.len() == 0,
            s.img_selected == -1,
            !s.suppress,
            s.clip_seq == 0,
            s.saved_rect is None,
    {
        Session {
            data,
            tab: Tab::History,
            images: Vec::new(),
            img_selected: -1,
            suppress: false,
            clip_seq: 0,
            saved_rect: None,
        }
    }

    /// The texts of the list the current mode shows (none in image mode).
    pub open spec fn shown_items(&self) -> Seq<Seq<char>> {
        match self.tab {
            Tab::History => self.data@.history,
            Tab::Snippet => self.data@.snippets,
            Tab::Image => Seq::empty(),
        }
    }

    /// The rows of the item list for the current mode.
    pub fn list_rows(&self) -> (rows: Vec<String>)
        ensures
            strings(rows@) == list_rows_spec(self.shown_items()),
    {
        let empty: Vec<String> = Vec::new();
        let src = match self.tab {
            Tab::History => &self.data.history,
            Tab::Snippet => &self.data.snippets,
            Tab::Image => &empty,
        };
        assert(strings(src@) == self.shown_items());
        let ghost want = list_rows_spec(self.shown_items());
        let mut rows: Vec<String> = Vec::new();
        for i in 0..src.len()
            invariant
                strings(src@) == self.shown_items(),
                want == list_rows_spec(self.shown_items()),
                strings(rows@) == want.take(i as int),
        {
            let mut v: Vec<char> = Vec::new();
            push_decimal(&mut v, i as u64 + 1);
            v.push(':');
            v.push(' ');
            let c = chars_of(src[i].as_str());
            let d = display_chars(&c);
            append_chars(&mut v, &d);
            proof { reveal_strlit(": "); }
            assert(v@ =~= list_item_spec(i as nat, src@[i as int]@));
            let ghost prev = strings(rows@);
            rows.push(string_from_chars(&v));
            assert(strings(rows@) =~= prev.push(v@));
            assert(want.take(i + 1) =~= want.take(i as int).push(want[i as int]));
        }
        assert(want.take(src.len() as int) =~= want);
        rows
    }

    /// The text of entry `sel` of the list the current mode shows, if there is one.
    pub fn selected_text(&self, sel: usize) -> (r: Option<String>)
        ensures
            match r {
                Some(t) => sel < self.shown_items().len() && t@ == self.shown_items()[sel as int],
                None => sel >= self.shown_items().len(),
            },
    {
        let src = match self.tab {
            Tab::History => &self.data.history,
            Tab::Snippet => &self.data.snippets,
            Tab::Image => {
                return None;
            },
        };
        if sel < src.len() {
            Some(src[sel].clone())
        } else {
            None
        }
    }

    /// History entry `n`, if there is one.
    pub fn history_text(&self, n: usize) -> (r: Option<String>)
        ensures
            match r {
                Some(t) => n < self.data.history.len() && t@ == self.data@.history[n as int],
                None => n >= self.data.history.len(),
            },
    {
        if n < self.data.history.len() {
            Some(self.data.history[n].clone())
        } else {
            None
        }
    }

    /// Snippet `n`, if there is one.
    pub fn snippet_text(&self, n: usize) -> (r: Option<String>)
        ensures
            match r {
                Some(t) => n < self.data.snippets.len() && t@ == self.data@.snippets[n as int],
                None => n >= self.data.snippets.len(),
            },
    {
        if n < self.data.snippets.len() {
            Some(self.data.snippets[n].clone())
        } else {
            None
        }
    }

    /// Everything but the saved data is the same in both.
    pub open spec fn same_runtime(&self, other: &Self) -> bool {
        &&& self.tab == other.tab
        &&& self.images@ == other.images@
        &&& self.img_selected == other.img_selected
        &&& self.suppress == other.suppress
        &&& self.clip_seq == other.clip_seq
        &&& self.saved_rect == other.saved_rect
    }

    /// Records a copied text in the history; tells whether the history changed.
    pub fn record_clipboard_text(&mut self, text: String) -> (changed: bool)
        ensures
            changed == (record_text_spec(
                old(self).data@.history,
                text@,
                old(self).data.move_to_top,
                old(self).data.history_max as nat,
            ) is Some),
            changed ==> final(self).data@.history == record_text_spec(
                old(self).data@.history,
                text@,
                old(self).data.move_to_top,
                old(self).data.history_max as nat,
            )->0,
            !changed ==> final(self).data@.history == old(self).data@.history,
            final(self).data@ == (StateModel { history: final(self).data@.history, ..old(self).data@ }),
            final(self).same_runtime(old(self)),
    {
        let ghost h = self.data@.history;
        if text.as_str().is_empty() {
            return false;
        }
        let pos = find_text(&self.data.history, &text);
        proof {
            lemma_find_index_at(h, text@, pos as int);
        }
        if pos < self.data.history.len() {
            if self.data.move_to_top && pos > 0 {
                let item = self.data.history.remove(pos);
                self.data.history.insert(0, item);
                assert(self.data@.history =~= seq![text@] + h.remove(pos as int));
                true
            } else {
                false
            }
        } else {
            self.data.history.insert(0, text);
            let max = self.data.history_max;
            self.data.history.truncate(max);
            assert(self.data@.history =~= truncated(seq![text@] + h, max as nat));
            true
        }
    }
}

impl<T> Session<T> {
    /// Everything but the images and their selection is the same in both.
    pub open spec fn same_outside_images(&self, other: &Self) -> bool {
        &&& self.data == other.data
        &&& self.tab == other.tab
        &&& self.suppress == other.suppress
        &&& self.clip_seq == other.clip_seq
        &&& self.saved_rect == other.saved_rect
    }

    /// The image list holds at most `IMAGE_MAX` images, and the selection is an image or -1.
    pub open spec fn images_wf(&self) -> bool {
        &&& self.images.len() <= IMAGE_MAX
        &&& -1 <= self.img_selected < self.images.len()
    }

    /// Whether the clipboard notice at hand is of the application's own write; the flag is
    /// cleared.
    pub fn take_suppress(&mut self) -> (was: bool)
        ensures
            was == old(self).suppress,
            !final(self).suppress,
            final(self).data == old(self).data,
            final(self).tab == old(self).tab,
            final(self).images@ == old(self).images@,
            final(self).img_selected == old(self).img_selected,
            final(self).clip_seq == old(self).clip_seq,
            final(self).saved_rect == old(self).saved_rect,
    {
        let was = self.suppress;
        self.suppress = false;
        was
    }

    /// Notes a clipboard sequence number; tells whether it differs from the last one noted.
    pub fn note_clip_seq(&mut self, seq: u32) -> (changed: bool)
        ensures
            changed == (old(self).clip_seq != seq),
            final(self).clip_seq == seq,
            final(self).data == old(self).data,
            final(self).tab == old(self).tab,
            final(self).images@ == old(self).images@,
            final(self).img_selected == old(self).img_selected,
            final(self).suppress == old(self).suppress,
            final(self).saved_rect == old(self).saved_rect,
    {
        if self.clip_seq != seq {
            self.clip_seq = seq;
            true
        } else {
            false
        }
    }

    /// A clipboard change notice with sequence number `seq`: the number is noted (so that
    /// the polling timer does not handle the same change again) and the "own write" flag is
    /// cleared; the clipboard is to be read exactly when the change is not the
    /// application's own write.
    pub fn on_clipboard_update(&mut self, seq: u32) -> (read: bool)
        ensures
            read == !old(self).suppress,
            final(self).clip_seq == seq,
            !final(self).suppress,
            final(self).data == old(self).data,
            final(self).tab == old(self).tab,
            final(self).images@ == old(self).images@,
            final(self).img_selected == old(self).img_selected,
            final(self).saved_rect == old(self).saved_rect,
    {
        self.note_clip_seq(seq);
        !self.take_suppress()
    }

    /// The polling timer with clipboard sequence number `seq`: the number is noted; an image
    /// is to be captured exactly when the number changed, an image format is on the
    /// clipboard, and the change is not the application's own write (the flag is kept).
    pub fn on_poll_timer(&mut self, seq: u32, has_image: bool) -> (capture: bool)
        ensures
            capture == (old(self).clip_seq != seq && has_image && !old(self).suppress),
            final(self).clip_seq == seq,
            final(self).suppress == old(self).suppress,
            final(self).data == old(self).data,
            final(self).tab == old(self).tab,
            final(self).images@ == old(self).images@,
            final(self).img_selected == old(self).img_selected,
            final(self).saved_rect == old(self).saved_rect,
    {
        let changed = self.note_clip_seq(seq);
        changed && has_image && !self.suppress
    }

    /// What a read of the clipboard after a change notice does: text is recorded in the
    /// history; without text the caller goes on to capture an image.
    pub fn on_clipboard_text(&mut self, text: Option<String>) -> (r: ClipboardOutcome)
        ensures
            match text {
                None => r == ClipboardOutcome::NoText && final(self).data@ == old(self).data@,
                Some(t) => {
                    let rec = record_text_spec(
                        old(self).data@.history,
                        t@,
                        old(self).data.move_to_top,
                        old(self).data.history_max as nat,
                    );
                    &&& r == (if rec is Some {
                        ClipboardOutcome::HistoryChanged
                    } else {
                        ClipboardOutcome::Unchanged
                    })
                    &&& final(self).data@ == (StateModel {
                        history: match rec {
                            Some(h) => h,
                            None => old(self).data@.history,
                        },
                        ..old(self).data@
                    })
                },
            },
            final(self).same_runtime(old(self)),
    {
        match text {
            Some(t) => {
                if self.record_clipboard_text(t) {
                    ClipboardOutcome::HistoryChanged
                } else {
                    ClipboardOutcome::Unchanged
                }
            },
            None => ClipboardOutcome::NoText,
        }
    }

    /// Whether the snippets are at their limit.
    pub fn snippets_full(&self) -> (full: bool)
        ensures
            full == (self.data.snippets.len() >= self.data.snippet_max),
    {
        self.data.snippets.len() >= self.data.snippet_max
    }

    /// Stores a text (taken from the clipboard) as a new snippet; tells whether it was added.
    pub fn register_snippet(&mut self, text: String) -> (added: bool)
        ensures
            added == (register_snippet_spec(
                old(self).data@.snippets,
                text@,
                old(self).data.snippet_max as nat,
            ) is Some),
            final(self).data@ == (StateModel {
                snippets: match register_snippet_spec(
                    old(self).data@.snippets,
                    text@,
                    old(self).data.snippet_max as nat,
                ) {
                    Some(s) => s,
                    None => old(self).data@.snippets,
                },
                ..old(self).data@
            }),
            final(self).same_runtime(old(self)),
    {
        if !text.as_str().is_empty() && self.data.snippets.len() < self.data.snippet_max {
            let ghost before = self.data@;
            self.data.snippets.push(text);
            assert(self.data@ =~= (StateModel { snippets: before.snippets.push(text@), ..before }));
            true
        } else {
            false
        }
    }

    /// Deletes history entry `n` if there is one; tells whether one was deleted.
    pub fn delete_history_entry(&mut self, n: usize) -> (removed: bool)
        ensures
            removed == (n < old(self).data.history.len()),
            final(self).data@ == (StateModel {
                history: if removed {
                    old(self).data@.history.remove(n as int)
                } else {
                    old(self).data@.history
                },
                ..old(self).data@
            }),
            final(self).same_runtime(old(self)),
    {
        if n < self.data.history.len() {
            let ghost before = self.data@;
            self.data.history.remove(n);
            assert(self.data@ =~= (StateModel { history: before.history.remove(n as int), ..before }));
            true
        } else {
            false
        }
    }

    /// Turns "always on top" over.
    pub fn toggle_topmost(&mut self) -> (on: bool)
        ensures
            on == !old(self).data.topmost,
            final(self).data@ == (StateModel { topmost: on, ..old(self).data@ }),
            final(self).same_runtime(old(self)),
    {
        self.data.topmost = !self.data.topmost;
        let ghost d = self.data@;
        self.data.topmost
    }

    /// Copies history entry `sel` to the snippets and shows the snippet list, unless there is
    /// no such entry or the snippets are at their limit.
    pub fn to_snippet(&mut self, sel: usize) -> (r: ToSnippet)
        ensures
            sel >= old(self).data.history.len() ==> r == ToSnippet::NoItem,
            sel < old(self).data.history.len() && old(self).data.snippets.len()
                >= old(self).data.snippet_max ==> r == ToSnippet::Full,
            r == ToSnippet::Added <==> sel < old(self).data.history.len()
                && old(self).data.snippets.len() < old(self).data.snippet_max,
            r == ToSnippet::Added ==> final(self).data@ == (StateModel {
                snippets: old(self).data@.snippets.push(old(self).data@.history[sel as int]),
                ..old(self).data@
            }) && final(self).tab == Tab::Snippet,
            r != ToSnippet::Added ==> final(self).data@ == old(self).data@ && final(self).tab == old(
                self,
            ).tab,
            final(self).images@ == old(self).images@,
            final(self).img_selected == old(self).img_selected,
            final(self).suppress == old(self).suppress,
            final(self).clip_seq == old(self).clip_seq,
            final(self).saved_rect == old(self).saved_rect,
    {
        if sel >= self.data.history.len() {
            return ToSnippet::NoItem;
        }
        if self.data.snippets.len() >= self.data.snippet_max {
            return ToSnippet::Full;
        }
        let text = self.data.history[sel].clone();
        let ghost before = self.data@;
        self.data.snippets.push(text);
        self.tab = Tab::Snippet;
        assert(self.data@ =~= (StateModel { snippets: before.snippets.push(before.history[sel as int]), ..before }));
        ToSnippet::Added
    }

    /// Appends a snippet written in the add dialog, when it is not empty.
    pub fn add_snippet(&mut self, text: String) -> (added: bool)
        ensures
            added == (text@.len() > 0),
            final(self).data@ == (StateModel {
                snippets: if added {
                    old(self).data@.snippets.push(text@)
                } else {
                    old(self).data@.snippets
                },
                ..old(self).data@
            }),
            final(self).same_runtime(old(self)),
    {
        if text.as_str().is_empty() {
            return false;
        }
        let ghost before = self.data@;
        self.data.snippets.push(text);
        assert(self.data@ =~= (StateModel { snippets: before.snippets.push(text@), ..before }));
        true
    }

    /// Replaces snippet `sel` by a text written in the edit dialog, when the text is not
    /// empty and the snippet still exists; tells whether the text was taken (not empty).
    pub fn edit_snippet(&mut self, sel: usize, text: String) -> (taken: bool)
        ensures
            taken == (text@.len() > 0),
            final(self).data@ == (StateModel {
                snippets: if taken && sel < old(self).data.snippets.len() {
                    old(self).data@.snippets.update(sel as int, text@)
                } else {
                    old(self).data@.snippets
                },
                ..old(self).data@
            }),
            final(self).same_runtime(old(self)),
    {
        if text.as_str().is_empty() {
            return false;
        }
        if sel < self.data.snippets.len() {
            let ghost before = self.data@;
            self.data.snippets.set(sel, text);
            assert(self.data@ =~= (StateModel { snippets: before.snippets.update(sel as int, text@), ..before }));
        }
        true
    }

    /// Deletes entry `sel` of the list the current mode shows (history or snippets), if
    /// there is one.
    pub fn delete_item(&mut self, sel: usize)
        ensures
            final(self).data@ == (match old(self).tab {
                Tab::History => StateModel {
                    history: if sel < old(self).data.history.len() {
                        old(self).data@.history.remove(sel as int)
                    } else {
                        old(self).data@.history
                    },
                    ..old(self).data@
                },
                Tab::Snippet => StateModel {
                    snippets: if sel < old(self).data.snippets.len() {
                        old(self).data@.snippets.remove(sel as int)
                    } else {
                        old(self).data@.snippets
                    },
                    ..old(self).data@
                },
                Tab::Image => old(self).data@,
            }),
            final(self).same_runtime(old(self)),
    {
        let ghost before = self.data@;
        match self.tab {
            Tab::History => {
                if sel < self.data.history.len() {
                    self.data.history.remove(sel);
                }
                assert(self.data@ =~= (StateModel {
                    history: if sel < before.history.len() {
                        before.history.remove(sel as int)
                    } else {
                        before.history
                    },
                    ..before
                }));
            },
            Tab::Snippet => {
                if sel < self.data.snippets.len() {
                    self.data.snippets.remove(sel);
                }
                assert(self.data@ =~= (StateModel {
                    snippets: if sel < before.snippets.len() {
                        before.snippets.remove(sel as int)
                    } else {
                        before.snippets
                    },
                    ..before
                }));
            },
            Tab::Image => {},
        }
    }

    /// Applies the settings dialog's result; tells whether the font size changed.
    pub fn apply_settings(&mut self, r: SettingsResult) -> (font_changed: bool)
        requires
            old(self).data.wf(),
        ensures
            font_changed == (old(self).data.font_size != r.font_size),
            final(self).data.wf(),
            final(self).data@ == apply_settings_spec(
                old(self).data@,
                (r.history_max, r.snippet_max, r.font_size, r.topmost, r.move_to_top, r.hotkeys@),
            ),
            final(self).data@.snippets == old(self).data@.snippets,
            final(self).data@.history == truncated(old(self).data@.history, r.history_max as nat),
            final(self).same_runtime(old(self)),
    {
        let ghost m = self.data@;
        let ghost want = apply_settings_spec(
            m,
            (r.history_max, r.snippet_max, r.font_size, r.topmost, r.move_to_top, r.hotkeys@),
        );
        self.data.history_max = r.history_max;
        self.data.snippet_max = r.snippet_max;
        self.data.topmost = r.topmost;
        self.data.move_to_top = r.move_to_top;
        let changed = self.data.font_size != r.font_size;
        self.data.font_size = r.font_size;
        self.data.history.truncate(r.history_max);
        assert(self.data@.history =~= want.history);
        for i in 0..r.hotkeys.len()
            invariant
                want == apply_settings_spec(
                    m,
                    (r.history_max, r.snippet_max, r.font_size, r.topmost, r.move_to_top, r.hotkeys@),
                ),
                self.data@ == (StateModel { hotkeys: self.data@.hotkeys, ..want }),
                self.same_runtime(old(self)),
                self.data.hotkeys.len() == HK_COUNT,
                m.hotkeys.len() == HK_COUNT,
                self.data.hotkeys@ == Seq::new(
                    m.hotkeys.len(),
                    |j: int|
                        if j < i && j < r.hotkeys@.len() {
                            r.hotkeys@[j]
                        } else {
                            m.hotkeys[j]
                        },
                ),
        {
            if i < HK_COUNT {
                self.data.hotkeys.set(i, r.hotkeys[i]);
            }
            assert(self.data.hotkeys@ =~= Seq::new(
                m.hotkeys.len(),
                |j: int|
                    if j < i + 1 && j < r.hotkeys@.len() {
                        r.hotkeys@[j]
                    } else {
                        m.hotkeys[j]
                    },
            ));
        }
        assert(self.data@.hotkeys =~= want.hotkeys);
        assert(self.data@ =~= want);
        changed
    }

    /// On entering image mode with the window at `rect` (left, top, right, bottom): the
    /// rectangle is saved and the new position and size returned (see
    /// `image_mode_window_spec`), unless a rectangle is saved already, in which case nothing
    /// changes.
    pub fn enter_image_mode_rect(
        &mut self,
        rect: (i32, i32, i32, i32),
        need_w: i32,
        work_left: i32,
        work_right: i32,
    ) -> (r: Option<(i32, i32, i32, i32)>)
        requires
            fits_i32(rect.2 - rect.0),
            fits_i32(rect.3 - rect.1),
            image_mode_window_ok(
                rect.0 as int,
                rect.2 - rect.0,
                need_w as int,
                work_left as int,
                work_right as int,
            ),
        ensures
            old(self).saved_rect is Some ==> r is None && final(self).saved_rect == old(
                self,
            ).saved_rect,
            old(self).saved_rect is None ==> {
                let (x, y, cw, ch) = (
                    rect.0 as int,
                    rect.1 as int,
                    rect.2 - rect.0,
                    rect.3 - rect.1,
                );
                let (nx, ww) = image_mode_window_spec(
                    x,
                    cw,
                    need_w as int,
                    work_left as int,
                    work_right as int,
                );
                &&& final(self).saved_rect == Some(
                    (rect.0, rect.1, (rect.2 - rect.0) as i32, (rect.3 - rect.1) as i32),
                )
                &&& r matches Some(v) && v.0 == nx && v.1 == y && v.2 == ww && v.3 == ch
            },
            final(self).data == old(self).data,
            final(self).tab == old(self).tab,
            final(self).images@ == old(self).images@,
            final(self).img_selected == old(self).img_selected,
            final(self).suppress == old(self).suppress,
            final(self).clip_seq == old(self).clip_seq,
    {
        if self.saved_rect.is_some() {
            return None;
        }
        let x = rect.0;
        let y = rect.1;
        let cw = rect.2 - rect.0;
        let ch = rect.3 - rect.1;
        self.saved_rect = Some((x, y, cw, ch));
        let (nx, ww) = image_mode_window(x, cw, need_w, work_left, work_right);
        Some((nx, y, ww, ch))
    }

    /// On leaving image mode: the saved rectangle, to restore the window to, is handed
    /// back and forgotten.
    pub fn leave_image_mode_rect(&mut self) -> (r: Option<(i32, i32, i32, i32)>)
        ensures
            r == old(self).saved_rect,
            final(self).saved_rect is None,
            final(self).data == old(self).data,
            final(self).tab == old(self).tab,
            final(self).images@ == old(self).images@,
            final(self).img_selected == old(self).img_selected,
            final(self).suppress == old(self).suppress,
            final(self).clip_seq == old(self).clip_seq,
    {
        self.saved_rect.take()
    }

    // -----------------------------------------------------------------------
    // Images
    // -----------------------------------------------------------------------

    /// Adds a captured image at the front and selects it, unless it has the same PNG bytes
    /// as the newest image; at most `IMAGE_MAX` images are kept.
    pub fn add_image(&mut self, item: ImageEntry<T>) -> (added: bool)
        ensures
            added == !(old(self).images.len() > 0 && old(self).images@[0].png@ == item.png@),
            added ==> final(self).images@ == truncated(
                seq![item] + old(self).images@,
                IMAGE_MAX as nat,
            ) && final(self).img_selected == 0,
            added ==> pngs(final(self).images@) == truncated(
                seq![item.png@] + pngs(old(self).images@),
                IMAGE_MAX as nat,
            ),
            !added ==> final(self).images@ == old(self).images@ && final(self).img_selected
                == old(self).img_selected,
            added || old(self).images_wf() ==> final(self).images_wf(),
            final(self).same_outside_images(old(self)),
    {
        if self.images.len() > 0 && bytes_eq(&self.images[0].png, &item.png) {
            return false;
        }
        let ghost before = self.images@;
        let ghost it = item;
        self.images.insert(0, item);
        self.images.truncate(IMAGE_MAX);
        self.img_selected = 0;
        assert(self.images@ =~= truncated(seq![it] + before, IMAGE_MAX as nat));
        assert(pngs(self.images@) =~= truncated(seq![it.png@] + pngs(before), IMAGE_MAX as nat));
        true
    }

    /// The selected image, if one is selected.
    pub fn selected_image(&self) -> (r: Option<usize>)
        ensures
            r == (if 0 <= self.img_selected < self.images.len() {
                Some(self.img_selected as usize)
            } else {
                None
            }),
    {
        if self.img_selected < 0 || self.img_selected as usize >= self.images.len() {
            None
        } else {
            Some(self.img_selected as usize)
        }
    }

    /// Selects image `idx`.
    pub fn select_image(&mut self, idx: usize)
        requires
            idx < old(self).images.len(),
            idx <= isize::MAX,
        ensures
            final(self).img_selected == idx,
            old(self).images.len() <= IMAGE_MAX ==> final(self).images_wf(),
            final(self).images@ == old(self).images@,
            final(self).same_outside_images(old(self)),
    {
        self.img_selected = idx as isize;
    }

    /// Deletes the selected image; the selection moves to the image now at its place, or
    /// to the last image, or to none when no image is left.
    pub fn delete_selected_image(&mut self)
        ensures
            old(self).images_wf() ==> final(self).images_wf(),
            0 <= old(self).img_selected < old(self).images.len() ==> {
                &&& final(self).images@ == old(self).images@.remove(old(self).img_selected as int)
                &&& final(self).img_selected == if final(self).images.len() == 0 {
                    -1
                } else if old(self).img_selected >= final(self).images.len() {
                    final(self).images.len() - 1
                } else {
                    old(self).img_selected as int
                }
            },
            !(0 <= old(self).img_selected < old(self).images.len()) ==> final(self).images@ == old(
                self,
            ).images@ && final(self).img_selected == old(self).img_selected,
            final(self).same_outside_images(old(self)),
    {
        let sel = self.img_selected;
        if sel >= 0 && (sel as usize) < self.images.len() {
            self.images.remove(sel as usize);
            if self.images.len() == 0 {
                self.img_selected = -1;
            } else if sel as usize >= self.images.len() {
                self.img_selected = self.images.len() as isize - 1;
            }
        }
    }

    /// Drops every image and the selection.
    pub fn clear_images(&mut self)
        ensures
            final(self).images@.len() == 0,
            final(self).img_selected == -1,
            final(self).images_wf(),
            final(self).same_outside_images(old(self)),
    {
        self.images.clear();
        self.img_selected = -1;
    }

    /// On showing image mode, the first image is selected when none is and there are images.
    pub fn select_first_image_if_none(&mut self)
        ensures
            final(self).img_selected == if old(self).img_selected < 0 && old(self).images.len()
                > 0 {
                0
            } else {
                old(self).img_selected as int
            },
            old(self).images_wf() ==> final(self).images_wf(),
            final(self).images@ == old(self).images@,
            final(self).same_outside_images(old(self)),
    {
        if self.img_selected < 0 && self.images.len() > 0 {
            self.img_selected = 0;
        }
    }
}

/// The index of the first entry of `v` that equals `t`, or `v.len()` when there is none.
fn find_text(v: &Vec<String>, t: &String) -> (r: usize)
    ensures
        r <= v.len(),
        forall|j: int| 0 <= j < r ==> v@[j]@ != t@,
        r < v.len() ==> v@[r as int]@ == t@,
{
    for i in 0..v.len()
        invariant
            forall|j: int| 0 <= j < i ==> v@[j]@ != t@,
    {
        if v[i] == *t {
            return i;
        }
    }
    v.len()
}

} // verus!
