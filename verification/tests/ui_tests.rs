use clipboard_manager::ui::{
    command_of, ctl_colors, is_theme_change, list_key_action, panel_colors, point_from_lparam,
    snippet_full_message, split_command_param, theme_name, toggle_hides, tray_action, Command,
    CtlColors, ListKey, TrayAction, DARK_BG_CTRL, DARK_BG_WINDOW, DARK_TEXT,
};

#[test]
fn commands_of_controls() {
    assert_eq!(command_of(100, 0), Command::NextMode);
    assert_eq!(command_of(102, 2), Command::PasteFromList);
    assert_eq!(command_of(102, 1), Command::Ignore);
    assert_eq!(command_of(110, 0), Command::Paste);
    assert_eq!(command_of(111, 0), Command::ToSnippet);
    assert_eq!(command_of(112, 0), Command::AddSnippet);
    assert_eq!(command_of(113, 0), Command::EditSnippet);
    assert_eq!(command_of(114, 0), Command::Delete);
    assert_eq!(command_of(115, 0), Command::Settings);
    assert_eq!(command_of(116, 0), Command::ClearImages);
    assert_eq!(command_of(1, 0), Command::Ignore);
    assert_eq!(split_command_param(0x0002_0066), (102, 2));
}

#[test]
fn tray_and_mouse_messages() {
    assert_eq!(tray_action(0x0202), TrayAction::Show);
    assert_eq!(tray_action(0x0205), TrayAction::Menu);
    assert_eq!(tray_action(0x0200), TrayAction::Ignore);
    assert_eq!(tray_action(0x1_0202), TrayAction::Show);
    assert_eq!(point_from_lparam(0x0020_0010), (16, 32));
    assert_eq!(point_from_lparam(0xFFFF_FFFE), (-2, -1));
}

#[test]
fn list_keys_and_window_toggle() {
    assert_eq!(list_key_action(0x0D), ListKey::Paste);
    assert_eq!(list_key_action(0x2E), ListKey::Delete);
    assert_eq!(list_key_action(0x1B), ListKey::Hide);
    assert_eq!(list_key_action(0x41), ListKey::Pass);
    assert_eq!(list_key_action(0x1_000D), ListKey::Paste);
    assert!(toggle_hides(true, false));
    assert!(!toggle_hides(true, true));
    assert!(!toggle_hides(false, false));
}

#[test]
fn dark_mode_colors() {
    assert_eq!(ctl_colors(false, 0x0134), None);
    assert_eq!(ctl_colors(true, 0x0134), Some(CtlColors { text: DARK_TEXT, back: DARK_BG_CTRL, control_brush: true }));
    assert_eq!(ctl_colors(true, 0x0133), Some(CtlColors { text: DARK_TEXT, back: DARK_BG_CTRL, control_brush: true }));
    assert_eq!(ctl_colors(true, 0x0138), Some(CtlColors { text: DARK_TEXT, back: DARK_BG_WINDOW, control_brush: false }));
    assert_eq!(theme_name(true), "DarkMode_Explorer");
    assert_eq!(theme_name(false), "Explorer");
    assert!(is_theme_change("ImmersiveColorSet"));
    assert!(!is_theme_change("Policy"));
    assert_eq!(panel_colors(false), (0x00F0F0F0, 0x00FFFFFF, 0x00404040));
    assert_eq!(panel_colors(true), (DARK_BG_WINDOW, DARK_BG_CTRL, DARK_TEXT));
}

#[test]
fn snippet_limit_warning() {
    assert_eq!(
        snippet_full_message(10),
        "定型文は最大10件です。\n設定で上限を変更するか、不要な定型文を削除してください。"
    );
}
