use clipboard_manager::session::{
    next_tab, tab_label, validate_settings, ClipboardOutcome, ImageEntry, Session, SettingsResult, Tab, ToSnippet,
};
use clipboard_manager::storage::default_state;

fn session() -> Session<u32> {
    Session::new(default_state())
}

fn img(bytes: &[u8], id: u32) -> ImageEntry<u32> {
    ImageEntry { png: bytes.to_vec(), thumb: id, tw: 10, th: 10 }
}

#[test]
fn tabs_cycle() {
    assert_eq!(next_tab(Tab::History), Tab::Snippet);
    assert_eq!(next_tab(Tab::Snippet), Tab::Image);
    assert_eq!(next_tab(Tab::Image), Tab::History);
    assert_eq!(next_tab(next_tab(next_tab(Tab::Snippet))), Tab::Snippet);
    assert_eq!(tab_label(Tab::History), "履歴");
    assert_eq!(tab_label(Tab::Snippet), "定型文");
    assert_eq!(tab_label(Tab::Image), "画像");
}

#[test]
fn new_session_state() {
    let s = session();
    assert_eq!(s.tab, Tab::History);
    assert!(s.images.is_empty());
    assert_eq!(s.img_selected, -1);
    assert!(!s.suppress);
    assert_eq!(s.clip_seq, 0);
    assert!(s.saved_rect.is_none());
}

#[test]
fn record_new_text_goes_first() {
    let mut s = session();
    assert!(s.record_clipboard_text("a".to_string()));
    assert!(s.record_clipboard_text("b".to_string()));
    assert_eq!(s.data.history, vec!["b".to_string(), "a".to_string()]);
    assert!(!s.record_clipboard_text(String::new()));
    assert_eq!(s.data.history.len(), 2);
}

#[test]
fn record_existing_text_moves_to_top() {
    let mut s = session();
    for t in ["a", "b", "c"] {
        s.record_clipboard_text(t.to_string());
    }
    assert!(s.record_clipboard_text("a".to_string()));
    assert_eq!(s.data.history, vec!["a".to_string(), "c".to_string(), "b".to_string()]);
    assert!(!s.record_clipboard_text("a".to_string()));
    s.data.move_to_top = false;
    assert!(!s.record_clipboard_text("b".to_string()));
    assert_eq!(s.data.history, vec!["a".to_string(), "c".to_string(), "b".to_string()]);
}

#[test]
fn record_cuts_history_to_limit() {
    let mut s = session();
    s.data.history_max = 3;
    for t in ["1", "2", "3", "4", "5"] {
        assert!(s.record_clipboard_text(t.to_string()));
    }
    assert_eq!(s.data.history, vec!["5".to_string(), "4".to_string(), "3".to_string()]);
}

#[test]
fn suppress_and_sequence_flags() {
    let mut s = session();
    s.suppress = true;
    assert!(s.take_suppress());
    assert!(!s.take_suppress());
    assert!(s.note_clip_seq(5));
    assert!(!s.note_clip_seq(5));
    assert_eq!(s.clip_seq, 5);
}

#[test]
fn register_snippet_respects_limit() {
    let mut s = session();
    s.data.snippet_max = 2;
    assert!(s.register_snippet("x".to_string()));
    assert!(!s.register_snippet(String::new()));
    assert!(s.register_snippet("y".to_string()));
    assert!(s.snippets_full());
    assert!(!s.register_snippet("z".to_string()));
    assert_eq!(s.data.snippets, vec!["x".to_string(), "y".to_string()]);
}

#[test]
fn history_and_snippet_lookup() {
    let mut s = session();
    s.record_clipboard_text("h".to_string());
    s.register_snippet("s".to_string());
    assert_eq!(s.history_text(0), Some("h".to_string()));
    assert_eq!(s.history_text(1), None);
    assert_eq!(s.snippet_text(0), Some("s".to_string()));
    assert_eq!(s.snippet_text(3), None);
    assert_eq!(s.selected_text(0), Some("h".to_string()));
    s.tab = Tab::Snippet;
    assert_eq!(s.selected_text(0), Some("s".to_string()));
    s.tab = Tab::Image;
    assert_eq!(s.selected_text(0), None);
}

#[test]
fn delete_history_and_toggle_topmost() {
    let mut s = session();
    s.record_clipboard_text("a".to_string());
    s.record_clipboard_text("b".to_string());
    assert!(s.delete_history_entry(0));
    assert!(!s.delete_history_entry(5));
    assert_eq!(s.data.history, vec!["a".to_string()]);
    assert!(!s.toggle_topmost());
    assert!(!s.data.topmost);
    assert!(s.toggle_topmost());
}

#[test]
fn to_snippet_outcomes() {
    let mut s = session();
    assert_eq!(s.to_snippet(0), ToSnippet::NoItem);
    s.record_clipboard_text("copied".to_string());
    assert_eq!(s.to_snippet(0), ToSnippet::Added);
    assert_eq!(s.tab, Tab::Snippet);
    assert_eq!(s.data.snippets, vec!["copied".to_string()]);
    s.tab = Tab::History;
    s.data.snippet_max = 1;
    assert_eq!(s.to_snippet(0), ToSnippet::Full);
    assert_eq!(s.tab, Tab::History);
}

#[test]
fn add_edit_and_delete_snippets() {
    let mut s = session();
    s.tab = Tab::Snippet;
    assert!(!s.add_snippet(String::new()));
    assert!(s.add_snippet("one".to_string()));
    assert!(s.add_snippet("two".to_string()));
    assert!(s.edit_snippet(1, "TWO".to_string()));
    assert!(!s.edit_snippet(0, String::new()));
    assert!(s.edit_snippet(9, "none".to_string()));
    assert_eq!(s.data.snippets, vec!["one".to_string(), "TWO".to_string()]);
    s.delete_item(0);
    s.delete_item(7);
    assert_eq!(s.data.snippets, vec!["TWO".to_string()]);
    s.tab = Tab::History;
    s.record_clipboard_text("h".to_string());
    s.delete_item(0);
    assert!(s.data.history.is_empty());
    assert_eq!(s.data.snippets.len(), 1);
}

#[test]
fn list_rows_for_each_mode() {
    let mut s = session();
    s.record_clipboard_text("first\nline".to_string());
    s.record_clipboard_text("  second  ".to_string());
    assert_eq!(s.list_rows(), vec!["1: second".to_string(), "2: first line".to_string()]);
    s.tab = Tab::Image;
    assert!(s.list_rows().is_empty());
}

#[test]
fn settings_validation() {
    let r = validate_settings(
        &vec![" 20".to_string(), "30 ".to_string(), "12".to_string()],
        vec![(0, 0); 30],
        &vec![false, true],
    )
    .unwrap();
    assert_eq!((r.history_max, r.snippet_max, r.font_size, r.topmost, r.move_to_top), (20, 30, 12, false, true));
    let r = validate_settings(&vec!["1".to_string(), "1000".to_string(), "40".to_string()], vec![], &vec![]).unwrap();
    assert!(r.topmost && r.move_to_top);
    assert!(validate_settings(&vec!["0".to_string(), "5".to_string(), "10".to_string()], vec![], &vec![]).is_none());
    assert!(validate_settings(&vec!["5".to_string(), "1001".to_string(), "10".to_string()], vec![], &vec![]).is_none());
    assert!(validate_settings(&vec!["5".to_string(), "5".to_string(), "41".to_string()], vec![], &vec![]).is_none());
    assert!(validate_settings(&vec!["x".to_string(), "5".to_string(), "10".to_string()], vec![], &vec![]).is_none());
    assert!(validate_settings(&vec!["5".to_string(), "5".to_string()], vec![], &vec![]).is_none());
}

#[test]
fn apply_settings_updates_data() {
    let mut s = session();
    for t in ["1", "2", "3", "4"] {
        s.record_clipboard_text(t.to_string());
    }
    let mut hk = vec![(0u32, 0u32); 30];
    hk[0] = (2, 0x41);
    let changed = s.apply_settings(SettingsResult {
        history_max: 2,
        snippet_max: 5,
        font_size: 14,
        topmost: false,
        move_to_top: false,
        hotkeys: hk.clone(),
    });
    assert!(changed);
    assert_eq!(s.data.history, vec!["4".to_string(), "3".to_string()]);
    assert_eq!(s.data.hotkeys, hk);
    assert_eq!((s.data.history_max, s.data.snippet_max, s.data.font_size), (2, 5, 14));
    assert!(!s.data.topmost && !s.data.move_to_top);
    let changed = s.apply_settings(SettingsResult {
        history_max: 2,
        snippet_max: 5,
        font_size: 14,
        topmost: true,
        move_to_top: true,
        hotkeys: vec![(1, 1)],
    });
    assert!(!changed);
    assert_eq!(s.data.hotkeys[0], (1, 1));
    assert_eq!(s.data.hotkeys[1], (0, 0));
    assert_eq!(s.data.hotkeys.len(), 30);
}

#[test]
fn images_newest_first_without_repeats() {
    let mut s = session();
    assert!(s.add_image(img(&[1], 1)));
    assert!(!s.add_image(img(&[1], 2)));
    assert!(s.add_image(img(&[2], 3)));
    assert_eq!(s.images.len(), 2);
    assert_eq!(s.images[0].thumb, 3);
    assert_eq!(s.img_selected, 0);
    for i in 0..20u8 {
        s.add_image(img(&[10, i], 100 + i as u32));
    }
    assert_eq!(s.images.len(), 10);
    assert_eq!(s.images[0].png, vec![10, 19]);
}

#[test]
fn image_selection_and_deletion() {
    let mut s = session();
    assert_eq!(s.selected_image(), None);
    s.select_first_image_if_none();
    assert_eq!(s.img_selected, -1);
    for i in 0..3u8 {
        s.add_image(img(&[i], i as u32));
    }
    s.select_image(2);
    assert_eq!(s.selected_image(), Some(2));
    s.delete_selected_image();
    assert_eq!(s.images.len(), 2);
    assert_eq!(s.img_selected, 1);
    s.select_image(0);
    s.delete_selected_image();
    assert_eq!(s.img_selected, 0);
    s.delete_selected_image();
    assert!(s.images.is_empty());
    assert_eq!(s.img_selected, -1);
    s.add_image(img(&[9], 9));
    s.clear_images();
    assert!(s.images.is_empty());
    assert_eq!(s.img_selected, -1);
}

#[test]
fn clipboard_notice_steps() {
    let mut s = session();
    s.suppress = true;
    assert!(!s.on_clipboard_update(7));
    assert_eq!(s.clip_seq, 7);
    assert!(!s.suppress);
    assert!(s.on_clipboard_update(8));
    assert_eq!(s.on_clipboard_text(Some("t".to_string())), ClipboardOutcome::HistoryChanged);
    assert_eq!(s.on_clipboard_text(Some("t".to_string())), ClipboardOutcome::Unchanged);
    assert_eq!(s.on_clipboard_text(Some(String::new())), ClipboardOutcome::Unchanged);
    assert_eq!(s.on_clipboard_text(None), ClipboardOutcome::NoText);
    assert_eq!(s.data.history, vec!["t".to_string()]);
}

#[test]
fn poll_timer_steps() {
    let mut s = session();
    assert!(!s.on_poll_timer(0, true));
    assert!(s.on_poll_timer(1, true));
    assert!(!s.on_poll_timer(1, true));
    assert!(!s.on_poll_timer(2, false));
    s.suppress = true;
    assert!(!s.on_poll_timer(3, true));
    assert!(s.suppress);
    assert_eq!(s.clip_seq, 3);
}
