use clipboard_manager::hotkeys::{default_hotkeys, MOD_ALT, MOD_CONTROL, MOD_SHIFT};
use clipboard_manager::storage::{default_state, parse_state, serialize_state, ClipState};

fn sample() -> ClipState {
    let mut st = default_state();
    st.history = vec!["newest".to_string(), "two\nlines".to_string(), "back\\slash".to_string()];
    st.snippets = vec!["hello".to_string(), "".to_string(), "tab\there\r\n".to_string()];
    st.history_max = 25;
    st.snippet_max = 7;
    st.font_size = 12;
    st.topmost = false;
    st.move_to_top = true;
    st.hotkeys[0] = (MOD_SHIFT | MOD_CONTROL, 0x43);
    st.hotkeys[29] = (MOD_ALT, 0x70);
    st
}

fn same(a: &ClipState, b: &ClipState) {
    assert_eq!(a.history, b.history);
    assert_eq!(a.snippets, b.snippets);
    assert_eq!(a.history_max, b.history_max);
    assert_eq!(a.snippet_max, b.snippet_max);
    assert_eq!(a.font_size, b.font_size);
    assert_eq!(a.topmost, b.topmost);
    assert_eq!(a.move_to_top, b.move_to_top);
    assert_eq!(a.hotkeys, b.hotkeys);
}

#[test]
fn default_state_values() {
    let st = default_state();
    assert!(st.history.is_empty());
    assert!(st.snippets.is_empty());
    assert_eq!(st.history_max, 10);
    assert_eq!(st.snippet_max, 10);
    assert_eq!(st.font_size, 10);
    assert!(st.topmost);
    assert!(st.move_to_top);
    assert_eq!(st.hotkeys, default_hotkeys());
}

#[test]
fn serialize_default_state_text() {
    let text = serialize_state(&default_state());
    let mut want = String::from("history_max=10\nsnippet_max=10\nfont_size=10\ntopmost=1\nmove_to_top=1\n");
    for (i, (m, vk)) in default_hotkeys().iter().enumerate() {
        want.push_str(&format!("hk{}={},{}\n", i, m, vk));
    }
    want.push_str("[history]\n[snippets]\n");
    assert_eq!(text, want);
}

#[test]
fn serialize_escapes_items() {
    let text = serialize_state(&sample());
    assert!(text.contains("[history]\nnewest\ntwo\\nlines\nback\\\\slash\n[snippets]\nhello\n\ntab\there\\r\\n\n"));
    assert!(text.starts_with("history_max=25\nsnippet_max=7\nfont_size=12\ntopmost=0\nmove_to_top=1\nhk0=6,67\n"));
}

#[test]
fn save_then_load_gives_back_the_data() {
    let st = sample();
    let back = parse_state(&serialize_state(&st));
    same(&st, &back);
    let d = default_state();
    same(&d, &parse_state(&serialize_state(&d)));
}

#[test]
fn load_empty_file_gives_defaults() {
    same(&default_state(), &parse_state(""));
}

#[test]
fn load_clamps_and_defaults_numbers() {
    let st = parse_state("history_max=5000\nsnippet_max=0\nfont_size=2\n");
    assert_eq!(st.history_max, 1000);
    assert_eq!(st.snippet_max, 1);
    assert_eq!(st.font_size, 6);
    let st = parse_state("history_max=abc\nsnippet_max= 42 \nfont_size=99999999999\n");
    assert_eq!(st.history_max, 10);
    assert_eq!(st.snippet_max, 42);
    assert_eq!(st.font_size, 10);
    let st = parse_state("history_max=+7\nfont_size=-8\n");
    assert_eq!(st.history_max, 7);
    assert_eq!(st.font_size, 10);
}

#[test]
fn load_switches() {
    let st = parse_state("topmost=0\nmove_to_top= 0 \n");
    assert!(!st.topmost);
    assert!(!st.move_to_top);
    let st = parse_state("topmost=yes\nmove_to_top=\n");
    assert!(st.topmost);
    assert!(st.move_to_top);
}

#[test]
fn load_hotkey_lines() {
    let st = parse_state("hk3=2,65\nhk4= 1 , 66 \nhk30=1,1\nhk 5=1,1\nhk6=x,y\nhk7=3\n");
    let d = default_hotkeys();
    assert_eq!(st.hotkeys[3], (2, 65));
    assert_eq!(st.hotkeys[4], (1, 66));
    assert_eq!(st.hotkeys[5], d[5]);
    assert_eq!(st.hotkeys[6], (0, 0));
    assert_eq!(st.hotkeys[7], d[7]);
    assert_eq!(st.hotkeys.len(), 30);
}

#[test]
fn load_sections_and_history_limit() {
    let st = parse_state("history_max=2\n[history]\na\nb\\nc\nd\n[snippets]\ns1\nhistory_max=9\n[history]\ne\n");
    assert_eq!(st.history, vec!["a".to_string(), "b\nc".to_string()]);
    assert_eq!(st.snippets, vec!["s1".to_string(), "history_max=9".to_string()]);
    assert_eq!(st.history_max, 2);
}

#[test]
fn load_crlf_lines() {
    let st = parse_state("font_size=20\r\n[snippets]\r\nx\r\ny\r");
    assert_eq!(st.font_size, 20);
    assert_eq!(st.snippets, vec!["x".to_string(), "y\r".to_string()]);
}

#[test]
fn load_ignores_unknown_lines() {
    let st = parse_state("garbage\n=1\nfoo=bar\n");
    same(&default_state(), &st);
}
