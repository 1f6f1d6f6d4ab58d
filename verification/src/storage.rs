//! The saved data: settings, shortcut assignments, history and snippets, and the
//! line-oriented text file they are saved in.
use vstd::prelude::*;
use crate::hotkeys::{default_hotkeys, default_hotkeys_spec, HK_COUNT};
use crate::text::{
    append_str, chars_eq_str, chars_of, clamp, decimal, escape_chars, escape_spec,
    has_prefix, join_line_vec, join_lines, lines, parse_or, parse_trimmed_or, parse_unsigned,
    parse_unsigned_chars, push_decimal, split_lines, split_once, split_once_chars, starts_with,
    string_from_chars, sub_chars, trim, trim_chars, trim_end, trim_start, unescape_chars,
    unescape_spec, views,
};

verus! {

/// Smallest and largest number of history entries and snippets that may be kept.
pub const ITEMS_MIN: usize = 1;
pub const ITEMS_MAX: usize = 1000;
/// Smallest and largest font size of the item list, in points.
pub const FONT_MIN: u32 = 6;
pub const FONT_MAX: u32 = 40;
/// Defaults of the number settings.
pub const HISTORY_MAX_DEFAULT: usize = 10;
pub const SNIPPET_MAX_DEFAULT: usize = 10;
pub const FONT_SIZE_DEFAULT: u32 = 10;

/// The saved data, as values.
#[verifier::ext_equal]
pub struct StateModel {
    pub history: Seq<Seq<char>>,
    pub snippets: Seq<Seq<char>>,
    pub history_max: usize,
    pub snippet_max: usize,
    pub font_size: u32,
    pub topmost: bool,
    pub move_to_top: bool,
    pub hotkeys: Seq<(u32, u32)>,
}

/// The saved data: clipboard history (newest first), snippets, the two item limits,
/// the list font size, the two switches, and one `(modifiers, key)` pair per shortcut
/// action (key 0: no key).
pub struct ClipState {
    pub history: Vec<String>,
    pub snippets: Vec<String>,
    pub history_max: usize,
    pub snippet_max: usize,
    pub font_size: u32,
    pub topmost: bool,
    pub move_to_top: bool,
    pub hotkeys: Vec<(u32, u32)>,
}

/// The texts that a vector of strings holds.
pub open spec fn strings(v: Seq<String>) -> Seq<Seq<char>> {
    v.map_values(|s: String| s@)
}

impl View for ClipState {
    type V = StateModel;

    open spec fn view(&self) -> StateModel {
        StateModel {
            history: strings(self.history@),
            snippets: strings(self.snippets@),
            history_max: self.history_max,
            snippet_max: self.snippet_max,
            font_size: self.font_size,
            topmost: self.topmost,
            move_to_top: self.move_to_top,
            hotkeys: self.hotkeys@,
        }
    }
}

impl ClipState {
    /// Every shortcut action has its assignment.
    pub open spec fn wf(&self) -> bool {
        self.hotkeys.len() == HK_COUNT
    }
}

/// The data before anything is loaded: no items, limits of 10, font size 10, both
/// switches on, the default shortcuts.
pub open spec fn default_model() -> StateModel {
    StateModel {
        history: Seq::empty(),
        snippets: Seq::empty(),
        history_max: HISTORY_MAX_DEFAULT,
        snippet_max: SNIPPET_MAX_DEFAULT,
        font_size: FONT_SIZE_DEFAULT,
        topmost: true,
        move_to_top: true,
        hotkeys: default_hotkeys_spec(),
    }
}

pub fn default_state() -> (st: ClipState)
    ensures
        st@ == default_model(),
        st.wf(),
{
    let st = ClipState {
        history: Vec::new(),
        snippets: Vec::new(),
        history_max: HISTORY_MAX_DEFAULT,
        snippet_max: SNIPPET_MAX_DEFAULT,
        font_size: FONT_SIZE_DEFAULT,
        topmost: true,
        move_to_top: true,
        hotkeys: default_hotkeys(),
    };
    assert(st@ =~= default_model());
    st
}

// ---------------------------------------------------------------------------
// Reading the saved file
// ---------------------------------------------------------------------------

/// Where a line of the saved file stands: among the settings, or in one of the two
/// item sections.
#[derive(Clone, Copy, Debug, PartialEq, Eq, Structural)]
pub enum Section {
    Settings,
    History,
    Snippets,
}

/// A switch is on unless its value, trimmed, is `0`.
pub open spec fn switch_value(v: Seq<char>) -> bool {
    trim(v) != "0"@
}

/// What one line of the saved file does, given the section it stands in:
/// `[history]` and `[snippets]` open a section; in a section each line is an escaped item
/// appended to it; among the settings, `key=value` lines set a setting (a number that does
/// not parse gives the default, and the result is clamped into its range), `hkI=M,V` sets
/// the assignment of action `I` when `I` is one, and any other line is ignored.
pub open spec fn load_line(sec: Section, m: StateModel, line: Seq<char>) -> (Section, StateModel) {
    if line == "[history]"@ {
        (Section::History, m)
    } else if line == "[snippets]"@ {
        (Section::Snippets, m)
    } else if sec == Section::History {
        (sec, StateModel { history: m.history.push(unescape_spec(line)), ..m })
    } else if sec == Section::Snippets {
        (sec, StateModel { snippets: m.snippets.push(unescape_spec(line)), ..m })
    } else if has_prefix(line, "history_max="@) {
        let v = trim(line.skip("history_max="@.len() as int));
        (
            sec,
            StateModel {
                history_max: clamp(
                    parse_or(v, usize::MAX as nat, HISTORY_MAX_DEFAULT as nat),
                    ITEMS_MIN as nat,
                    ITEMS_MAX as nat,
                ) as usize,
                ..m
            },
        )
    } else if has_prefix(line, "snippet_max="@) {
        let v = trim(line.skip("snippet_max="@.len() as int));
        (
            sec,
            StateModel {
                snippet_max: clamp(
                    parse_or(v, usize::MAX as nat, SNIPPET_MAX_DEFAULT as nat),
                    ITEMS_MIN as nat,
                    ITEMS_MAX as nat,
                ) as usize,
                ..m
            },
        )
    } else if has_prefix(line, "font_size="@) {
        let v = trim(line.skip("font_size="@.len() as int));
        (
            sec,
            StateModel {
                font_size: clamp(
                    parse_or(v, u32::MAX as nat, FONT_SIZE_DEFAULT as nat),
                    FONT_MIN as nat,
                    FONT_MAX as nat,
                ) as u32,
                ..m
            },
        )
    } else if has_prefix(line, "topmost="@) {
        (sec, StateModel { topmost: switch_value(line.skip("topmost="@.len() as int)), ..m })
    } else if has_prefix(line, "move_to_top="@) {
        (
            sec,
            StateModel { move_to_top: switch_value(line.skip("move_to_top="@.len() as int)), ..m },
        )
    } else if has_prefix(line, "hk"@) {
        (sec, StateModel { hotkeys: load_hotkey(m.hotkeys, line.skip("hk"@.len() as int)), ..m })
    } else {
        (sec, m)
    }
}

/// What the rest of an `hk` line does to the assignments: `I=M,V` with `I` a number below
/// `HK_COUNT` sets action `I` to the pair of trimmed numbers (0 where one does not parse).
pub open spec fn load_hotkey(hk: Seq<(u32, u32)>, rest: Seq<char>) -> Seq<(u32, u32)> {
    match split_once(rest, '=') {
        Some((idx, val)) => match (parse_unsigned(idx, usize::MAX as nat), split_once(val, ',')) {
            (Some(i), Some((a, b))) => if i < HK_COUNT {
                hk.update(
                    i as int,
                    (
                        parse_or(trim(a), u32::MAX as nat, 0) as u32,
                        parse_or(trim(b), u32::MAX as nat, 0) as u32,
                    ),
                )
            } else {
                hk
            },
            _ => hk,
        },
        None => hk,
    }
}

/// The effect of a run of lines, one after the other.
pub open spec fn load_lines(sec: Section, m: StateModel, ls: Seq<Seq<char>>) -> (
    Section,
    StateModel,
)
    decreases ls.len(),
{
    if ls.len() == 0 {
        (sec, m)
    } else {
        let (s1, m1) = load_lines(sec, m, ls.drop_last());
        load_line(s1, m1, ls.last())
    }
}

/// Keeps at most `history_max` history entries.
pub open spec fn truncate_history(m: StateModel) -> StateModel {
    if m.history.len() > m.history_max {
        StateModel { history: m.history.take(m.history_max as int), ..m }
    } else {
        m
    }
}

/// The data that a saved file holds: its lines applied to the defaults, then the history
/// cut to its limit.
pub open spec fn parse_state_spec(content: Seq<char>) -> StateModel {
    truncate_history(load_lines(Section::Settings, default_model(), lines(content)).1)
}

/// Each number setting lies in its range and every shortcut action has an assignment.
pub open spec fn settings_in_range(m: StateModel) -> bool {
    &&& ITEMS_MIN <= m.history_max <= ITEMS_MAX
    &&& ITEMS_MIN <= m.snippet_max <= ITEMS_MAX
    &&& FONT_MIN <= m.font_size <= FONT_MAX
    &&& m.hotkeys.len() == HK_COUNT
}

proof fn lemma_load_lines_in_range(sec: Section, m: StateModel, ls: Seq<Seq<char>>)
    requires
        settings_in_range(m),
    ensures
        settings_in_range(load_lines(sec, m, ls).1),
    decreases ls.len(),
{
    if ls.len() > 0 {
        lemma_load_lines_in_range(sec, m, ls.drop_last());
    }
}

/// Whatever a saved file holds, the data read from it has every number setting in its
/// range, one assignment per shortcut action, and no more history entries than its limit.
pub proof fn lemma_parse_state_in_range(content: Seq<char>)
    ensures
        settings_in_range(parse_state_spec(content)),
        parse_state_spec(content).history.len() <= parse_state_spec(content).history_max,
{
    lemma_load_lines_in_range(Section::Settings, default_model(), lines(content));
}

/// If `s` starts with `p`, what follows it.
pub fn strip_prefix_chars(s: &Vec<char>, p: &str) -> (r: Option<Vec<char>>)
    ensures
        match r {
            Some(rest) => has_prefix(s@, p@) && rest@ == s@.skip(p@.len() as int),
            None => !has_prefix(s@, p@),
        },
{
    if starts_with(s, p) {
        let n = chars_of(p).len();
        Some(sub_chars(s, n, s.len()))
    } else {
        None
    }
}

fn clamp_u64(v: u64, lo: u64, hi: u64) -> (r: u64)
    requires
        lo <= hi,
    ensures
        r as nat == clamp(v as nat, lo as nat, hi as nat),
{
    if v < lo {
        lo
    } else if v > hi {
        hi
    } else {
        v
    }
}

fn load_hotkey_exec(hk: &mut Vec<(u32, u32)>, rest: &Vec<char>)
    requires
        old(hk).len() == HK_COUNT,
    ensures
        final(hk)@ == load_hotkey(old(hk)@, rest@),
        final(hk).len() == HK_COUNT,
{
    match split_once_chars(rest, '=') {
        Some((idx, val)) => {
            let i = parse_unsigned_chars(&idx, usize::MAX as u64);
            let parts = split_once_chars(&val, ',');
            match (i, parts) {
                (Some(i), Some((a, b))) => {
                    if i < HK_COUNT as u64 {
                        let m = parse_trimmed_or(&a, u32::MAX as u64, 0);
                        let vk = parse_trimmed_or(&b, u32::MAX as u64, 0);
                        hk.set(i as usize, (m as u32, vk as u32));
                    }
                },
                _ => {},
            }
        },
        None => {},
    }
}

/// Applies one line of the saved file.
pub fn load_line_exec(sec: &mut Section, st: &mut ClipState, line: &Vec<char>)
    requires
        old(st).wf(),
    ensures
        final(st).wf(),
        (*final(sec), final(st)@) == load_line(*old(sec), old(st)@, line@),
{
    let ghost m = st@;
    let ghost s0 = *sec;
    if chars_eq_str(line, "[history]") {
        *sec = Section::History;
    } else if chars_eq_str(line, "[snippets]") {
        *sec = Section::Snippets;
    } else if *sec == Section::History {
        let u = unescape_chars(line);
        st.history.push(string_from_chars(&u));
        assert(st@ =~= load_line(s0, m, line@).1);
    } else if *sec == Section::Snippets {
        let u = unescape_chars(line);
        st.snippets.push(string_from_chars(&u));
        assert(st@ =~= load_line(s0, m, line@).1);
    } else if let Some(v) = strip_prefix_chars(line, "history_max=") {
        let n = parse_trimmed_or(&v, usize::MAX as u64, HISTORY_MAX_DEFAULT as u64);
        st.history_max = clamp_u64(n, ITEMS_MIN as u64, ITEMS_MAX as u64) as usize;
        assert(st@ =~= load_line(s0, m, line@).1);
    } else if let Some(v) = strip_prefix_chars(line, "snippet_max=") {
        let n = parse_trimmed_or(&v, usize::MAX as u64, SNIPPET_MAX_DEFAULT as u64);
        st.snippet_max = clamp_u64(n, ITEMS_MIN as u64, ITEMS_MAX as u64) as usize;
        assert(st@ =~= load_line(s0, m, line@).1);
    } else if let Some(v) = strip_prefix_chars(line, "font_size=") {
        let n = parse_trimmed_or(&v, u32::MAX as u64, FONT_SIZE_DEFAULT as u64);
        st.font_size = clamp_u64(n, FONT_MIN as u64, FONT_MAX as u64) as u32;
        assert(st@ =~= load_line(s0, m, line@).1);
    } else if let Some(v) = strip_prefix_chars(line, "topmost=") {
        let t = trim_chars(&v);
        st.topmost = !chars_eq_str(&t, "0");
        assert(st@ =~= load_line(s0, m, line@).1);
    } else if let Some(v) = strip_prefix_chars(line, "move_to_top=") {
        let t = trim_chars(&v);
        st.move_to_top = !chars_eq_str(&t, "0");
        assert(st@ =~= load_line(s0, m, line@).1);
    } else if let Some(rest) = strip_prefix_chars(line, "hk") {
        load_hotkey_exec(&mut st.hotkeys, &rest);
        assert(st@ =~= load_line(s0, m, line@).1);
    } else {
        assert(st@ =~= load_line(s0, m, line@).1);
    }
}

/// Reads the saved data from the content of the saved file.
pub fn parse_state(content: &str) -> (st: ClipState)
    ensures
        st.wf(),
        st@ == parse_state_spec(content@),
        settings_in_range(st@),
        st.history.len() <= st.history_max,
{
    proof {
        lemma_parse_state_in_range(content@);
    }
    let chars = chars_of(content);
    let ls = split_lines(&chars);
    let mut st = default_state();
    let mut sec = Section::Settings;
    let ghost all = views(ls@);
    for i in 0..ls.len()
        invariant
            all == views(ls@),
            st.wf(),
            (sec, st@) == load_lines(Section::Settings, default_model(), all.take(i as int)),
    {
        assert(all.take(i + 1).drop_last() =~= all.take(i as int));
        assert(all.take(i + 1).last() == ls@[i as int]@);
        load_line_exec(&mut sec, &mut st, &ls[i]);
    }
    assert(all.take(ls.len() as int) =~= all);
    let max = st.history_max;
    let ghost before = st@;
    st.history.truncate(max);
    assert(st@ =~= truncate_history(before));
    st
}

// ---------------------------------------------------------------------------
// Writing the saved file
// ---------------------------------------------------------------------------

/// How a switch is written.
pub open spec fn switch_text(b: bool) -> Seq<char> {
    if b {
        "1"@
    } else {
        "0"@
    }
}

/// The line of shortcut action `i`: `hkI=M,V`.
pub open spec fn hotkey_line(i: nat, p: (u32, u32)) -> Seq<char> {
    "hk"@ + decimal(i) + "="@ + decimal(p.0 as nat) + ","@ + decimal(p.1 as nat)
}

pub open spec fn hotkey_lines(hk: Seq<(u32, u32)>) -> Seq<Seq<char>> {
    Seq::new(hk.len(), |i: int| hotkey_line(i as nat, hk[i]))
}

/// The five setting lines, in the order they are written.
pub open spec fn settings_lines(m: StateModel) -> Seq<Seq<char>> {
    seq![
        "history_max="@ + decimal(m.history_max as nat),
        "snippet_max="@ + decimal(m.snippet_max as nat),
        "font_size="@ + decimal(m.font_size as nat),
        "topmost="@ + switch_text(m.topmost),
        "move_to_top="@ + switch_text(m.move_to_top),
    ]
}

pub open spec fn item_lines(items: Seq<Seq<char>>) -> Seq<Seq<char>> {
    items.map_values(|x: Seq<char>| escape_spec(x))
}

/// The lines of the saved file: the settings, the shortcut assignments, `[history]` and
/// one escaped line per history entry, `[snippets]` and one escaped line per snippet.
pub open spec fn state_lines(m: StateModel) -> Seq<Seq<char>> {
    settings_lines(m) + hotkey_lines(m.hotkeys) + seq!["[history]"@] + item_lines(m.history)
        + seq!["[snippets]"@] + item_lines(m.snippets)
}

/// The content of the saved file: its lines, each ended by a line feed.
pub open spec fn serialize_state_spec(m: StateModel) -> Seq<char> {
    join_lines(state_lines(m))
}

fn push_line(ls: &mut Vec<Vec<char>>, l: Vec<char>)
    ensures
        views(final(ls)@) == views(old(ls)@).push(l@),
{
    let ghost prev = views(ls@);
    let ghost lv = l@;
    ls.push(l);
    assert(views(ls@) =~= prev.push(lv));
}

fn setting_line(key: &str, n: u64) -> (l: Vec<char>)
    ensures
        l@ == key@ + decimal(n as nat),
{
    let mut l: Vec<char> = Vec::new();
    append_str(&mut l, key);
    push_decimal(&mut l, n);
    assert(l@ =~= key@ + decimal(n as nat));
    l
}

fn switch_line(key: &str, b: bool) -> (l: Vec<char>)
    ensures
        l@ == key@ + switch_text(b),
{
    let mut l: Vec<char> = Vec::new();
    append_str(&mut l, key);
    if b {
        append_str(&mut l, "1");
    } else {
        append_str(&mut l, "0");
    }
    assert(l@ =~= key@ + switch_text(b));
    l
}

fn push_item_lines(ls: &mut Vec<Vec<char>>, items: &Vec<String>)
    ensures
        views(final(ls)@) == views(old(ls)@) + item_lines(strings(items@)),
{
    let ghost start = views(ls@);
    let ghost all = item_lines(strings(items@));
    for i in 0..items.len()
        invariant
            all == item_lines(strings(items@)),
            views(ls@) == start + all.take(i as int),
    {
        let v = chars_of(items[i].as_str());
        let e = escape_chars(&v);
        assert(e@ == all[i as int]);
        push_line(ls, e);
        assert(all.take(i + 1) =~= all.take(i as int).push(all[i as int]));
        assert(start + all.take(i + 1) =~= (start + all.take(i as int)).push(all[i as int]));
    }
    assert(all.take(items.len() as int) =~= all);
}

/// Writes the saved data as the content of the saved file.
pub fn serialize_state(st: &ClipState) -> (s: String)
    ensures
        s@ == serialize_state_spec(st@),
{
    let ghost m = st@;
    let mut ls: Vec<Vec<char>> = Vec::new();
    push_line(&mut ls, setting_line("history_max=", st.history_max as u64));
    push_line(&mut ls, setting_line("snippet_max=", st.snippet_max as u64));
    push_line(&mut ls, setting_line("font_size=", st.font_size as u64));
    push_line(&mut ls, switch_line("topmost=", st.topmost));
    push_line(&mut ls, switch_line("move_to_top=", st.move_to_top));
    assert(views(ls@) =~= settings_lines(m));
    let ghost hks = hotkey_lines(m.hotkeys);
    for i in 0..st.hotkeys.len()
        invariant
            m == st@,
            hks == hotkey_lines(m.hotkeys),
            views(ls@) == settings_lines(m) + hks.take(i as int),
    {
        let (a, b) = st.hotkeys[i];
        let mut l: Vec<char> = Vec::new();
        append_str(&mut l, "hk");
        push_decimal(&mut l, i as u64);
        append_str(&mut l, "=");
        push_decimal(&mut l, a as u64);
        append_str(&mut l, ",");
        push_decimal(&mut l, b as u64);
        assert(l@ =~= hks[i as int]);
        push_line(&mut ls, l);
        assert(hks.take(i + 1) =~= hks.take(i as int).push(hks[i as int]));
        assert(settings_lines(m) + hks.take(i + 1) =~= (settings_lines(m) + hks.take(
            i as int,
        )).push(hks[i as int]));
    }
    assert(hks.take(st.hotkeys.len() as int) =~= hks);
    push_line(&mut ls, chars_of("[history]"));
    push_item_lines(&mut ls, &st.history);
    push_line(&mut ls, chars_of("[snippets]"));
    push_item_lines(&mut ls, &st.snippets);
    assert(views(ls@) =~= state_lines(m));
    let joined = join_line_vec(&ls);
    string_from_chars(&joined)
}

// ---------------------------------------------------------------------------
// Saving and loading again gives back the data
// ---------------------------------------------------------------------------

/// Data that the saved file can hold unchanged: each number setting within its range,
/// no more history entries than the limit, one assignment per action, and no item that
/// reads exactly as a section heading.
pub open spec fn storable(m: StateModel) -> bool {
    &&& ITEMS_MIN <= m.history_max <= ITEMS_MAX
    &&& ITEMS_MIN <= m.snippet_max <= ITEMS_MAX
    &&& FONT_MIN <= m.font_size <= FONT_MAX
    &&& m.history.len() <= m.history_max
    &&& m.hotkeys.len() == HK_COUNT
    &&& forall|i: int|
        0 <= i < m.history.len() ==> #[trigger] m.history[i] != "[history]"@ && m.history[i]
            != "[snippets]"@
    &&& forall|i: int|
        0 <= i < m.snippets.len() ==> #[trigger] m.snippets[i] != "[history]"@ && m.snippets[i]
            != "[snippets]"@
}

proof fn lemma_load_lines_push(sec: Section, m: StateModel, a: Seq<Seq<char>>, l: Seq<char>)
    ensures
        load_lines(sec, m, a.push(l)) == load_line(
            load_lines(sec, m, a).0,
            load_lines(sec, m, a).1,
            l,
        ),
{
    assert(a.push(l).drop_last() =~= a);
}

proof fn lemma_load_lines_append(sec: Section, m: StateModel, a: Seq<Seq<char>>, b: Seq<Seq<char>>)
    ensures
        load_lines(sec, m, a + b) == load_lines(
            load_lines(sec, m, a).0,
            load_lines(sec, m, a).1,
            b,
        ),
    decreases b.len(),
{
    if b.len() == 0 {
        assert(a + b =~= a);
    } else {
        lemma_load_lines_append(sec, m, a, b.drop_last());
        assert((a + b).drop_last() =~= a + b.drop_last());
        assert((a + b).last() == b.last());
    }
}

proof fn lemma_not_prefix(s: Seq<char>, p: Seq<char>, i: int)
    requires
        0 <= i < p.len(),
        i < s.len() ==> s[i] != p[i],
    ensures
        !has_prefix(s, p),
{
    if has_prefix(s, p) {
        assert(s.take(p.len() as int)[i] == s[i]);
    }
}

proof fn lemma_prefix_rest(p: Seq<char>, r: Seq<char>)
    ensures
        has_prefix(p + r, p),
        (p + r).skip(p.len() as int) == r,
{
    assert((p + r).take(p.len() as int) =~= p);
    assert((p + r).skip(p.len() as int) =~= r);
}

proof fn lemma_one_line_concat(a: Seq<char>, b: Seq<char>)
    requires
        crate::text::one_line(a),
        crate::text::one_line(b),
    ensures
        crate::text::one_line(a + b),
{
    assert forall|i: int| 0 <= i < (a + b).len() implies (a + b)[i] != '\n' && (a + b)[i]
        != '\r' by {
        if i >= a.len() {
            assert((a + b)[i] == b[i - a.len()]);
        }
    }
}

proof fn lemma_decimal_one_line(n: nat)
    ensures
        crate::text::one_line(decimal(n)),
        forall|i: int| 0 <= i < decimal(n).len() ==> decimal(n)[i] != '=' && decimal(n)[i] != ',',
{
    crate::text::lemma_decimal(n);
    assert(forall|i: int|
        0 <= i < decimal(n).len() ==> crate::text::is_digit_spec(#[trigger] decimal(n)[i]));
}

proof fn lemma_setting_number_line(key: Seq<char>, n: nat, max: nat)
    requires
        n <= max,
    ensures
        has_prefix(key + decimal(n), key),
        parse_or(trim((key + decimal(n)).skip(key.len() as int)), max, 0) == n,
        forall|d: nat| parse_or(trim((key + decimal(n)).skip(key.len() as int)), max, d) == n,
{
    lemma_prefix_rest(key, decimal(n));
    crate::text::lemma_parse_decimal(n, max);
}

/// Among the settings, a line that sets a limit or the font size to a number takes that
/// number clamped into the setting's range, and changes nothing else.
pub proof fn lemma_load_number_setting(m: StateModel, n: nat)
    requires
        n <= u32::MAX,
    ensures
        load_line(Section::Settings, m, "history_max="@ + decimal(n)) == (
            Section::Settings,
            StateModel { history_max: clamp(n, ITEMS_MIN as nat, ITEMS_MAX as nat) as usize, ..m },
        ),
        load_line(Section::Settings, m, "snippet_max="@ + decimal(n)) == (
            Section::Settings,
            StateModel { snippet_max: clamp(n, ITEMS_MIN as nat, ITEMS_MAX as nat) as usize, ..m },
        ),
        load_line(Section::Settings, m, "font_size="@ + decimal(n)) == (
            Section::Settings,
            StateModel { font_size: clamp(n, FONT_MIN as nat, FONT_MAX as nat) as u32, ..m },
        ),
        ITEMS_MIN <= n <= ITEMS_MAX ==> clamp(n, ITEMS_MIN as nat, ITEMS_MAX as nat) == n,
        n > ITEMS_MAX ==> clamp(n, ITEMS_MIN as nat, ITEMS_MAX as nat) == ITEMS_MAX,
        n < ITEMS_MIN ==> clamp(n, ITEMS_MIN as nat, ITEMS_MAX as nat) == ITEMS_MIN,
        FONT_MIN <= n <= FONT_MAX ==> clamp(n, FONT_MIN as nat, FONT_MAX as nat) == n,
        n > FONT_MAX ==> clamp(n, FONT_MIN as nat, FONT_MAX as nat) == FONT_MAX,
        n < FONT_MIN ==> clamp(n, FONT_MIN as nat, FONT_MAX as nat) == FONT_MIN,
{
    reveal_strlit("[history]");
    reveal_strlit("[snippets]");
    reveal_strlit("history_max=");
    reveal_strlit("snippet_max=");
    reveal_strlit("font_size=");
    let a = "history_max="@ + decimal(n);
    let b = "snippet_max="@ + decimal(n);
    let c = "font_size="@ + decimal(n);
    lemma_setting_number_line("history_max="@, n, usize::MAX as nat);
    lemma_setting_number_line("snippet_max="@, n, usize::MAX as nat);
    lemma_setting_number_line("font_size="@, n, u32::MAX as nat);
    assert(a[0] == 'h' && b[0] == 's' && c[0] == 'f');
    assert(a != "[history]"@ && a != "[snippets]"@);
    assert(b != "[history]"@ && b != "[snippets]"@);
    assert(c != "[history]"@ && c != "[snippets]"@);
    lemma_not_prefix(b, "history_max="@, 0);
    lemma_not_prefix(c, "history_max="@, 0);
    lemma_not_prefix(c, "snippet_max="@, 0);
}

/// The data read from any file keeps no more history entries than its history limit.
pub proof fn lemma_parse_state_history_limit(content: Seq<char>)
    ensures
        parse_state_spec(content).history.len() <= parse_state_spec(content).history_max,
{
}

proof fn lemma_load_settings(m: StateModel)
    requires
        storable(m),
    ensures
        load_lines(Section::Settings, default_model(), settings_lines(m)) == (
            Section::Settings,
            StateModel {
                history_max: m.history_max,
                snippet_max: m.snippet_max,
                font_size: m.font_size,
                topmost: m.topmost,
                move_to_top: m.move_to_top,
                ..default_model()
            },
        ),
{
    reveal_strlit("[history]");
    reveal_strlit("[snippets]");
    reveal_strlit("history_max=");
    reveal_strlit("snippet_max=");
    reveal_strlit("font_size=");
    reveal_strlit("topmost=");
    reveal_strlit("move_to_top=");
    reveal_strlit("hk");
    reveal_strlit("0");
    reveal_strlit("1");
    let x0 = default_model();
    let l0 = "history_max="@ + decimal(m.history_max as nat);
    let l1 = "snippet_max="@ + decimal(m.snippet_max as nat);
    let l2 = "font_size="@ + decimal(m.font_size as nat);
    let l3 = "topmost="@ + switch_text(m.topmost);
    let l4 = "move_to_top="@ + switch_text(m.move_to_top);
    let e = Seq::<Seq<char>>::empty();
    assert(settings_lines(m) =~= e.push(l0).push(l1).push(l2).push(l3).push(l4));
    lemma_load_lines_push(Section::Settings, x0, e, l0);
    lemma_load_lines_push(Section::Settings, x0, e.push(l0), l1);
    lemma_load_lines_push(Section::Settings, x0, e.push(l0).push(l1), l2);
    lemma_load_lines_push(Section::Settings, x0, e.push(l0).push(l1).push(l2), l3);
    lemma_load_lines_push(Section::Settings, x0, e.push(l0).push(l1).push(l2).push(l3), l4);

    // history_max
    lemma_setting_number_line("history_max="@, m.history_max as nat, usize::MAX as nat);
    assert(l0[0] == 'h');
    let x1 = StateModel { history_max: m.history_max, ..x0 };
    assert(load_line(Section::Settings, x0, l0) == (Section::Settings, x1));
    // snippet_max
    lemma_setting_number_line("snippet_max="@, m.snippet_max as nat, usize::MAX as nat);
    assert(l1[0] == 's');
    lemma_not_prefix(l1, "history_max="@, 0);
    let x2 = StateModel { snippet_max: m.snippet_max, ..x1 };
    assert(load_line(Section::Settings, x1, l1) == (Section::Settings, x2));
    // font_size
    lemma_setting_number_line("font_size="@, m.font_size as nat, u32::MAX as nat);
    assert(l2[0] == 'f');
    lemma_not_prefix(l2, "history_max="@, 0);
    lemma_not_prefix(l2, "snippet_max="@, 0);
    let x3 = StateModel { font_size: m.font_size, ..x2 };
    assert(load_line(Section::Settings, x2, l2) == (Section::Settings, x3));
    // topmost
    lemma_prefix_rest("topmost="@, switch_text(m.topmost));
    assert(l3[0] == 't');
    lemma_not_prefix(l3, "history_max="@, 0);
    lemma_not_prefix(l3, "snippet_max="@, 0);
    lemma_not_prefix(l3, "font_size="@, 0);
    assert(trim_start(switch_text(m.topmost)) == switch_text(m.topmost));
    assert(trim_end(switch_text(m.topmost)) == switch_text(m.topmost));
    assert(switch_value(switch_text(m.topmost)) == m.topmost);
    let x4 = StateModel { topmost: m.topmost, ..x3 };
    assert(load_line(Section::Settings, x3, l3) == (Section::Settings, x4));
    // move_to_top
    lemma_prefix_rest("move_to_top="@, switch_text(m.move_to_top));
    assert(l4[0] == 'm');
    lemma_not_prefix(l4, "history_max="@, 0);
    lemma_not_prefix(l4, "snippet_max="@, 0);
    lemma_not_prefix(l4, "font_size="@, 0);
    lemma_not_prefix(l4, "topmost="@, 0);
    assert(trim_start(switch_text(m.move_to_top)) == switch_text(m.move_to_top));
    assert(trim_end(switch_text(m.move_to_top)) == switch_text(m.move_to_top));
    assert(switch_value(switch_text(m.move_to_top)) == m.move_to_top);
    let x5 = StateModel { move_to_top: m.move_to_top, ..x4 };
    assert(load_line(Section::Settings, x4, l4) == (Section::Settings, x5));
    assert(load_lines(Section::Settings, x0, e) == (Section::Settings, x0));
}

proof fn lemma_load_hotkey_line(x: StateModel, i: nat, p: (u32, u32))
    requires
        i < HK_COUNT,
        x.hotkeys.len() == HK_COUNT,
    ensures
        load_line(Section::Settings, x, hotkey_line(i, p)) == (
            Section::Settings,
            StateModel { hotkeys: x.hotkeys.update(i as int, p), ..x },
        ),
{
    reveal_strlit("[history]");
    reveal_strlit("[snippets]");
    reveal_strlit("history_max=");
    reveal_strlit("snippet_max=");
    reveal_strlit("font_size=");
    reveal_strlit("topmost=");
    reveal_strlit("move_to_top=");
    reveal_strlit("hk");
    reveal_strlit("=");
    reveal_strlit(",");
    let l = hotkey_line(i, p);
    let di = decimal(i);
    let da = decimal(p.0 as nat);
    let db = decimal(p.1 as nat);
    let val = da + seq![','] + db;
    let rest = di + seq!['='] + val;
    assert(l =~= "hk"@ + rest);
    assert(l[0] == 'h');
    assert(l[1] == 'k');
    lemma_not_prefix(l, "history_max="@, 1);
    lemma_not_prefix(l, "snippet_max="@, 0);
    lemma_not_prefix(l, "font_size="@, 0);
    lemma_not_prefix(l, "topmost="@, 0);
    lemma_not_prefix(l, "move_to_top="@, 0);
    lemma_prefix_rest("hk"@, rest);
    lemma_decimal_one_line(i);
    lemma_decimal_one_line(p.0 as nat);
    crate::text::lemma_split_once_concat(di, '=', val);
    crate::text::lemma_split_once_concat(da, ',', db);
    crate::text::lemma_parse_decimal(i, usize::MAX as nat);
    crate::text::lemma_parse_decimal(p.0 as nat, u32::MAX as nat);
    crate::text::lemma_parse_decimal(p.1 as nat, u32::MAX as nat);
    assert(load_hotkey(x.hotkeys, rest) == x.hotkeys.update(i as int, p));
}

proof fn lemma_load_hotkey_lines(x: StateModel, hk: Seq<(u32, u32)>, k: nat)
    requires
        hk.len() == HK_COUNT,
        x.hotkeys.len() == HK_COUNT,
        k <= HK_COUNT,
    ensures
        load_lines(Section::Settings, x, hotkey_lines(hk).take(k as int)) == (
            Section::Settings,
            StateModel { hotkeys: hk.take(k as int) + x.hotkeys.skip(k as int), ..x },
        ),
    decreases k,
{
    if k == 0 {
        assert(hotkey_lines(hk).take(0) =~= Seq::<Seq<char>>::empty());
        assert(hk.take(0) + x.hotkeys.skip(0) =~= x.hotkeys);
        assert(StateModel { hotkeys: hk.take(0) + x.hotkeys.skip(0), ..x } =~= x);
    } else {
        let j = (k - 1) as nat;
        lemma_load_hotkey_lines(x, hk, j);
        let ls = hotkey_lines(hk);
        assert(ls.take(k as int) =~= ls.take(j as int).push(ls[j as int]));
        lemma_load_lines_push(Section::Settings, x, ls.take(j as int), ls[j as int]);
        let y = StateModel { hotkeys: hk.take(j as int) + x.hotkeys.skip(j as int), ..x };
        lemma_load_hotkey_line(y, j, hk[j as int]);
        assert(y.hotkeys.update(j as int, hk[j as int]) =~= hk.take(k as int) + x.hotkeys.skip(
            k as int,
        ));
    }
}

proof fn lemma_marker_escapes()
    ensures
        escape_spec("[history]"@) == "[history]"@,
        escape_spec("[snippets]"@) == "[snippets]"@,
        crate::text::one_line("[history]"@),
        crate::text::one_line("[snippets]"@),
{
    reveal_strlit("[history]");
    reveal_strlit("[snippets]");
    crate::text::lemma_escape_plain("[history]"@);
    crate::text::lemma_escape_plain("[snippets]"@);
}

proof fn lemma_item_line_not_marker(h: Seq<char>)
    requires
        h != "[history]"@,
        h != "[snippets]"@,
    ensures
        escape_spec(h) != "[history]"@,
        escape_spec(h) != "[snippets]"@,
        unescape_spec(escape_spec(h)) == h,
{
    lemma_marker_escapes();
    if escape_spec(h) == "[history]"@ {
        crate::text::lemma_escape_injective(h, "[history]"@);
    }
    if escape_spec(h) == "[snippets]"@ {
        crate::text::lemma_escape_injective(h, "[snippets]"@);
    }
    crate::text::lemma_unescape_escape(h);
}

proof fn lemma_load_history_items(x: StateModel, items: Seq<Seq<char>>, k: nat)
    requires
        k <= items.len(),
        forall|i: int|
            0 <= i < items.len() ==> #[trigger] items[i] != "[history]"@ && items[i]
                != "[snippets]"@,
    ensures
        load_lines(Section::History, x, item_lines(items).take(k as int)) == (
            Section::History,
            StateModel { history: x.history + items.take(k as int), ..x },
        ),
    decreases k,
{
    let ls = item_lines(items);
    if k == 0 {
        assert(ls.take(0) =~= Seq::<Seq<char>>::empty());
        assert(x.history + items.take(0) =~= x.history);
        assert(StateModel { history: x.history + items.take(0), ..x } =~= x);
    } else {
        let j = (k - 1) as nat;
        lemma_load_history_items(x, items, j);
        assert(ls.take(k as int) =~= ls.take(j as int).push(ls[j as int]));
        lemma_load_lines_push(Section::History, x, ls.take(j as int), ls[j as int]);
        assert(items[j as int] != "[history]"@ && items[j as int] != "[snippets]"@);
        lemma_item_line_not_marker(items[j as int]);
        assert((x.history + items.take(j as int)).push(items[j as int]) =~= x.history + items.take(
            k as int,
        ));
    }
}

proof fn lemma_load_snippet_items(x: StateModel, items: Seq<Seq<char>>, k: nat)
    requires
        k <= items.len(),
        forall|i: int|
            0 <= i < items.len() ==> #[trigger] items[i] != "[history]"@ && items[i]
                != "[snippets]"@,
    ensures
        load_lines(Section::Snippets, x, item_lines(items).take(k as int)) == (
            Section::Snippets,
            StateModel { snippets: x.snippets + items.take(k as int), ..x },
        ),
    decreases k,
{
    let ls = item_lines(items);
    if k == 0 {
        assert(ls.take(0) =~= Seq::<Seq<char>>::empty());
        assert(x.snippets + items.take(0) =~= x.snippets);
        assert(StateModel { snippets: x.snippets + items.take(0), ..x } =~= x);
    } else {
        let j = (k - 1) as nat;
        lemma_load_snippet_items(x, items, j);
        assert(ls.take(k as int) =~= ls.take(j as int).push(ls[j as int]));
        lemma_load_lines_push(Section::Snippets, x, ls.take(j as int), ls[j as int]);
        assert(items[j as int] != "[history]"@ && items[j as int] != "[snippets]"@);
        lemma_item_line_not_marker(items[j as int]);
        assert((x.snippets + items.take(j as int)).push(items[j as int]) =~= x.snippets
            + items.take(k as int));
    }
}

proof fn lemma_state_lines_one_line(m: StateModel)
    ensures
        forall|i: int|
            0 <= i < state_lines(m).len() ==> crate::text::one_line(#[trigger] state_lines(m)[i]),
{
    reveal_strlit("history_max=");
    reveal_strlit("snippet_max=");
    reveal_strlit("font_size=");
    reveal_strlit("topmost=");
    reveal_strlit("move_to_top=");
    reveal_strlit("hk");
    reveal_strlit("=");
    reveal_strlit(",");
    reveal_strlit("0");
    reveal_strlit("1");
    lemma_marker_escapes();
    let st = settings_lines(m);
    lemma_decimal_one_line(m.history_max as nat);
    lemma_decimal_one_line(m.snippet_max as nat);
    lemma_decimal_one_line(m.font_size as nat);
    lemma_one_line_concat("history_max="@, decimal(m.history_max as nat));
    lemma_one_line_concat("snippet_max="@, decimal(m.snippet_max as nat));
    lemma_one_line_concat("font_size="@, decimal(m.font_size as nat));
    lemma_one_line_concat("topmost="@, switch_text(m.topmost));
    lemma_one_line_concat("move_to_top="@, switch_text(m.move_to_top));
    assert(forall|i: int| 0 <= i < st.len() ==> crate::text::one_line(#[trigger] st[i]));
    let hl = hotkey_lines(m.hotkeys);
    assert forall|i: int| 0 <= i < hl.len() implies crate::text::one_line(#[trigger] hl[i]) by {
        let p = m.hotkeys[i];
        lemma_decimal_one_line(i as nat);
        lemma_decimal_one_line(p.0 as nat);
        lemma_decimal_one_line(p.1 as nat);
        lemma_one_line_concat("hk"@, decimal(i as nat));
        lemma_one_line_concat("hk"@ + decimal(i as nat), "="@);
        lemma_one_line_concat("hk"@ + decimal(i as nat) + "="@, decimal(p.0 as nat));
        lemma_one_line_concat("hk"@ + decimal(i as nat) + "="@ + decimal(p.0 as nat), ","@);
        lemma_one_line_concat(
            "hk"@ + decimal(i as nat) + "="@ + decimal(p.0 as nat) + ","@,
            decimal(p.1 as nat),
        );
    }
    let hs = item_lines(m.history);
    assert forall|i: int| 0 <= i < hs.len() implies crate::text::one_line(#[trigger] hs[i]) by {
        crate::text::lemma_escape_one_line(m.history[i]);
    }
    let ss = item_lines(m.snippets);
    assert forall|i: int| 0 <= i < ss.len() implies crate::text::one_line(#[trigger] ss[i]) by {
        crate::text::lemma_escape_one_line(m.snippets[i]);
    }
    let all = state_lines(m);
    assert forall|i: int| 0 <= i < all.len() implies crate::text::one_line(#[trigger] all[i]) by {
        let a = st.len() as int;
        let b = a + hl.len();
        let c = b + 1;
        let d = c + hs.len();
        let e = d + 1;
        if i < a {
            assert(all[i] == st[i]);
        } else if i < b {
            assert(all[i] == hl[i - a]);
        } else if i < c {
            assert(all[i] == "[history]"@);
        } else if i < d {
            assert(all[i] == hs[i - c]);
        } else if i < e {
            assert(all[i] == "[snippets]"@);
        } else {
            assert(all[i] == ss[i - e]);
        }
    }
}

/// Saving data that the file can hold and reading the saved file again gives back the
/// same data: settings, shortcut assignments, history and snippets.
pub proof fn lemma_save_load_roundtrip(m: StateModel)
    requires
        storable(m),
    ensures
        parse_state_spec(serialize_state_spec(m)) == m,
{
    reveal_strlit("[history]");
    reveal_strlit("[snippets]");
    lemma_state_lines_one_line(m);
    crate::text::lemma_lines_join(state_lines(m));
    let st = settings_lines(m);
    let hl = hotkey_lines(m.hotkeys);
    let hs = item_lines(m.history);
    let ss = item_lines(m.snippets);
    let x0 = default_model();
    // settings
    lemma_load_settings(m);
    let x1 = StateModel {
        history_max: m.history_max,
        snippet_max: m.snippet_max,
        font_size: m.font_size,
        topmost: m.topmost,
        move_to_top: m.move_to_top,
        ..x0
    };
    // shortcut assignments
    lemma_load_lines_append(Section::Settings, x0, st, hl);
    lemma_load_hotkey_lines(x1, m.hotkeys, HK_COUNT as nat);
    assert(hl.take(HK_COUNT as int) =~= hl);
    assert(m.hotkeys.take(HK_COUNT as int) + x1.hotkeys.skip(HK_COUNT as int) =~= m.hotkeys);
    let x2 = StateModel { hotkeys: m.hotkeys, ..x1 };
    assert(load_lines(Section::Settings, x0, st + hl) == (Section::Settings, x2));
    // history
    lemma_load_lines_push(Section::Settings, x0, st + hl, "[history]"@);
    assert(load_lines(Section::Settings, x0, (st + hl).push("[history]"@)) == (
        Section::History,
        x2,
    ));
    assert((st + hl).push("[history]"@) =~= st + hl + seq!["[history]"@]);
    lemma_load_lines_append(Section::Settings, x0, st + hl + seq!["[history]"@], hs);
    lemma_load_history_items(x2, m.history, m.history.len());
    assert(hs.take(m.history.len() as int) =~= hs);
    assert(x2.history + m.history.take(m.history.len() as int) =~= m.history);
    let x3 = StateModel { history: m.history, ..x2 };
    let pre3 = st + hl + seq!["[history]"@] + hs;
    assert(load_lines(Section::Settings, x0, pre3) == (Section::History, x3));
    // snippets
    lemma_load_lines_push(Section::Settings, x0, pre3, "[snippets]"@);
    assert(pre3.push("[snippets]"@) =~= pre3 + seq!["[snippets]"@]);
    let pre4 = pre3 + seq!["[snippets]"@];
    assert(load_lines(Section::Settings, x0, pre4) == (Section::Snippets, x3));
    lemma_load_lines_append(Section::Settings, x0, pre4, ss);
    lemma_load_snippet_items(x3, m.snippets, m.snippets.len());
    assert(ss.take(m.snippets.len() as int) =~= ss);
    assert(x3.snippets + m.snippets.take(m.snippets.len() as int) =~= m.snippets);
    let x4 = StateModel { snippets: m.snippets, ..x3 };
    assert(pre4 + ss =~= state_lines(m));
    assert(load_lines(Section::Settings, x0, state_lines(m)) == (Section::Snippets, x4));
    assert(x4 =~= m);
    assert(truncate_history(m) == m);
}

} // verus!
