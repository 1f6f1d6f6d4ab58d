use clipboard_manager::hotkeys::{
    action_label, decode_hotkey_control, default_hotkeys, encode_hotkey_control,
    failed_hotkeys_message, hk_list_label, hotkey_action, hotkey_id, hotkey_index,
    hotkeyf_to_mod, key_name, mod_to_hotkeyf, vk_name, HotkeyAction, HK_COUNT, MOD_ALT,
    MOD_CONTROL, MOD_SHIFT,
};

#[test]
fn default_hotkeys_assignment() {
    let hk = default_hotkeys();
    assert_eq!(hk.len(), HK_COUNT);
    assert_eq!(hk[0], (0, 0));
    assert_eq!(hk[1], (MOD_CONTROL | MOD_ALT, 0x56));
    assert_eq!(hk[2], (MOD_CONTROL | MOD_ALT, 0x31));
    assert_eq!(hk[10], (MOD_CONTROL | MOD_ALT, 0x39));
    assert_eq!(hk[11], (0, 0));
    assert_eq!(hk[29], (0, 0));
}

#[test]
fn modifier_flags_map_both_ways() {
    assert_eq!(hotkeyf_to_mod(1), MOD_SHIFT);
    assert_eq!(hotkeyf_to_mod(2), MOD_CONTROL);
    assert_eq!(hotkeyf_to_mod(4), MOD_ALT);
    assert_eq!(hotkeyf_to_mod(0xF8), 0);
    assert_eq!(mod_to_hotkeyf(MOD_SHIFT), 1);
    assert_eq!(mod_to_hotkeyf(MOD_CONTROL | MOD_ALT), 6);
    for m in 0..16u32 {
        assert_eq!(hotkeyf_to_mod(mod_to_hotkeyf(m)), m & 7);
        assert_eq!(mod_to_hotkeyf(hotkeyf_to_mod(m)), m & 7);
    }
}

#[test]
fn hotkey_control_value_round_trip() {
    assert_eq!(encode_hotkey_control(MOD_CONTROL | MOD_ALT, 0x56), 0x0656);
    assert_eq!(decode_hotkey_control(0x0656), (MOD_CONTROL | MOD_ALT, 0x56));
    assert_eq!(decode_hotkey_control(0x0600), (0, 0));
    for m in 0..8u32 {
        for vk in [1u32, 0x41, 0x70, 0xFF] {
            assert_eq!(decode_hotkey_control(encode_hotkey_control(m, vk)), (m, vk));
        }
    }
}

#[test]
fn hotkey_message_index() {
    assert_eq!(hotkey_index(100), Some(0));
    assert_eq!(hotkey_index(129), Some(29));
    assert_eq!(hotkey_index(130), None);
    assert_eq!(hotkey_index(99), None);
    assert_eq!(hotkey_index(0x1_0000_0064), Some(0));
    assert_eq!(hotkey_id(5), 105);
    assert_eq!(hotkey_index(hotkey_id(17) as usize), Some(17));
}

#[test]
fn hotkey_actions() {
    assert_eq!(hotkey_action(0), HotkeyAction::ToggleWindow);
    assert_eq!(hotkey_action(1), HotkeyAction::RegisterClipboard);
    assert_eq!(hotkey_action(2), HotkeyAction::PasteHistory(0));
    assert_eq!(hotkey_action(10), HotkeyAction::PasteHistory(8));
    assert_eq!(hotkey_action(11), HotkeyAction::DeleteHistory(0));
    assert_eq!(hotkey_action(20), HotkeyAction::PasteSnippet(0));
    assert_eq!(hotkey_action(28), HotkeyAction::PasteSnippet(8));
    assert_eq!(hotkey_action(29), HotkeyAction::ToggleTopmost);
    assert_eq!(hotkey_action(30), HotkeyAction::Nothing);
}

#[test]
fn action_labels() {
    assert_eq!(action_label(0), "ウィンドウ表示/非表示");
    assert_eq!(action_label(1), "クリップボードを定型文に登録");
    assert_eq!(action_label(2), "履歴1 貼り付け");
    assert_eq!(action_label(10), "履歴9 貼り付け");
    assert_eq!(action_label(11), "履歴1 消去");
    assert_eq!(action_label(19), "履歴9 消去");
    assert_eq!(action_label(20), "定型文1 貼り付け");
    assert_eq!(action_label(28), "定型文9 貼り付け");
    assert_eq!(action_label(29), "常に手前に表示 切り替え");
    assert_eq!(action_label(99), "常に手前に表示 切り替え");
}

#[test]
fn virtual_key_names() {
    assert_eq!(vk_name(0x41), "A");
    assert_eq!(vk_name(0x35), "5");
    assert_eq!(vk_name(0x70), "F1");
    assert_eq!(vk_name(0x87), "F24");
    assert_eq!(vk_name(0x60), "Num0");
    assert_eq!(vk_name(0x69), "Num9");
    assert_eq!(vk_name(0x08), "BackSpace");
    assert_eq!(vk_name(0x0D), "Enter");
    assert_eq!(vk_name(0x25), "←");
    assert_eq!(vk_name(0x28), "↓");
    assert_eq!(vk_name(0x2E), "Delete");
    assert_eq!(vk_name(0x05), "0x05");
    assert_eq!(vk_name(0xBA), "0xBA");
    assert_eq!(vk_name(0x1FF), "0x1FF");
}

#[test]
fn key_names() {
    assert_eq!(key_name(MOD_CONTROL | MOD_ALT, 0x56), "Ctrl+Alt+V");
    assert_eq!(key_name(MOD_CONTROL | MOD_SHIFT | MOD_ALT, 0x70), "Ctrl+Shift+Alt+F1");
    assert_eq!(key_name(0, 0x20), "Space");
    assert_eq!(key_name(MOD_CONTROL, 0), "(なし)");
}

#[test]
fn hotkey_list_rows() {
    assert_eq!(hk_list_label(1, MOD_CONTROL | MOD_ALT, 0x56), "クリップボードを定型文に登録\tCtrl+Alt+V");
    assert_eq!(hk_list_label(0, 0, 0), "ウィンドウ表示/非表示\t(なし)");
}

#[test]
fn failed_hotkeys_report() {
    let hk = default_hotkeys();
    let msg = failed_hotkeys_message(&vec![1, 2], &hk);
    assert_eq!(
        msg,
        "以下のショートカットキーは他のアプリで使用中のため登録できませんでした:\n・クリップボードを定型文に登録 (Ctrl+Alt+V)\n・履歴1 貼り付け (Ctrl+Alt+1)"
    );
    assert_eq!(
        failed_hotkeys_message(&vec![], &hk),
        "以下のショートカットキーは他のアプリで使用中のため登録できませんでした:\n"
    );
}
