//! Small decisions of the window procedures: which command a control sends, what a tray
//! click or a key in the list does, the dark-mode colours, and message texts.
use vstd::prelude::*;
use crate::text::{append_str, chars_eq_str, chars_of, decimal, push_decimal, string_from_chars};

verus! {

/// Control identifiers of the main window.
pub const ID_MODE: i32 = 100;
pub const ID_LIST: i32 = 102;
pub const ID_PASTE: i32 = 110;
pub const ID_TO_SNIP: i32 = 111;
pub const ID_ADD: i32 = 112;
pub const ID_EDIT: i32 = 113;
pub const ID_DELETE: i32 = 114;
pub const ID_SETTINGS: i32 = 115;
pub const ID_IMAGES: i32 = 116;

/// Notification code of a double click in a list box.
pub const LBN_DBLCLK: u32 = 2;

/// What a command message of the main window asks for.
#[derive(Clone, Copy, Debug, PartialEq, Eq, Structural)]
pub enum Command {
    /// The mode button: switch to the next mode.
    NextMode,
    /// A double click in the list: paste the selected item.
    PasteFromList,
    /// The paste button: paste the selected image in image mode, else the selected item.
    Paste,
    /// Copy the selected history entry to the snippets.
    ToSnippet,
    /// Add a snippet.
    AddSnippet,
    /// Edit the selected snippet.
    EditSnippet,
    /// Delete the selected item or image.
    Delete,
    /// Drop all images.
    ClearImages,
    /// Open the settings.
    Settings,
    /// Anything else.
    Ignore,
}

pub open spec fn command_of_spec(id: i32, code: u32) -> Command {
    if id == ID_MODE {
        Command::NextMode
    } else if id == ID_LIST && code == LBN_DBLCLK {
        Command::PasteFromList
    } else if id == ID_PASTE {
        Command::Paste
    } else if id == ID_TO_SNIP {
        Command::ToSnippet
    } else if id == ID_ADD {
        Command::AddSnippet
    } else if id == ID_EDIT {
        Command::EditSnippet
    } else if id == ID_DELETE {
        Command::Delete
    } else if id == ID_IMAGES {
        Command::ClearImages
    } else if id == ID_SETTINGS {
        Command::Settings
    } else {
        Command::Ignore
    }
}

/// The command that control `id` sends with notification `code`.
pub fn command_of(id: i32, code: u32) -> (c: Command)
    ensures
        c == command_of_spec(id, code),
{
    if id == ID_MODE {
        Command::NextMode
    } else if id == ID_LIST && code == LBN_DBLCLK {
        Command::PasteFromList
    } else if id == ID_PASTE {
        Command::Paste
    } else if id == ID_TO_SNIP {
        Command::ToSnippet
    } else if id == ID_ADD {
        Command::AddSnippet
    } else if id == ID_EDIT {
        Command::EditSnippet
    } else if id == ID_DELETE {
        Command::Delete
    } else if id == ID_IMAGES {
        Command::ClearImages
    } else if id == ID_SETTINGS {
        Command::Settings
    } else {
        Command::Ignore
    }
}

/// Each button of the main window sends its own command whatever the notification code;
/// the mode button switches the mode; the item list asks for a paste on a double click
/// only; any other control asks for nothing.
pub proof fn lemma_command_table(id: i32, code: u32)
    ensures
        command_of_spec(ID_MODE, code) == Command::NextMode,
        command_of_spec(ID_PASTE, code) == Command::Paste,
        command_of_spec(ID_TO_SNIP, code) == Command::ToSnippet,
        command_of_spec(ID_ADD, code) == Command::AddSnippet,
        command_of_spec(ID_EDIT, code) == Command::EditSnippet,
        command_of_spec(ID_DELETE, code) == Command::Delete,
        command_of_spec(ID_IMAGES, code) == Command::ClearImages,
        command_of_spec(ID_SETTINGS, code) == Command::Settings,
        command_of_spec(ID_LIST, code) == if code == LBN_DBLCLK {
            Command::PasteFromList
        } else {
            Command::Ignore
        },
        !(id == ID_MODE || id == ID_LIST || (ID_PASTE <= id <= ID_IMAGES)) ==> command_of_spec(id, code)
            == Command::Ignore,
{
}

/// The control identifier (low word) and notification code (high word) of a command
/// message's first parameter.
pub fn split_command_param(wparam: usize) -> (r: (i32, u32))
    ensures
        r.0 == (wparam & 0xffff) as i32,
        r.1 == (wparam >> 16) as u32,
{
    ((wparam & 0xffff) as i32, (wparam >> 16) as u32)
}

/// Mouse messages of the tray icon that the application answers.
pub const WM_LBUTTONUP: u32 = 0x0202;
pub const WM_RBUTTONUP: u32 = 0x0205;

#[derive(Clone, Copy, Debug, PartialEq, Eq, Structural)]
pub enum TrayAction {
    /// A left click shows the window.
    Show,
    /// A right click opens the tray menu.
    Menu,
    Ignore,
}

/// What a tray icon notification does; the mouse message is the low word of `lparam`.
pub fn tray_action(lparam: isize) -> (a: TrayAction)
    ensures
        a == (if (lparam & 0xffff) as u32 == WM_LBUTTONUP {
            TrayAction::Show
        } else if (lparam & 0xffff) as u32 == WM_RBUTTONUP {
            TrayAction::Menu
        } else {
            TrayAction::Ignore
        }),
{
    let m = (lparam & 0xffff) as u32;
    if m == WM_LBUTTONUP {
        TrayAction::Show
    } else if m == WM_RBUTTONUP {
        TrayAction::Menu
    } else {
        TrayAction::Ignore
    }
}

/// The client coordinates of a mouse message: the low and high words of `lparam`, each
/// read as a signed 16-bit number.
pub fn point_from_lparam(lparam: isize) -> (p: (i32, i32))
    ensures
        p.0 == ((lparam & 0xffff) as i16) as i32,
        p.1 == (((lparam >> 16) & 0xffff) as i16) as i32,
{
    let x = ((lparam & 0xffff) as i16) as i32;
    let y = (((lparam >> 16) & 0xffff) as i16) as i32;
    (x, y)
}

/// Virtual key codes that the item list reacts to.
pub const VK_RETURN: u16 = 0x0D;
pub const VK_ESCAPE: u16 = 0x1B;
pub const VK_DELETE: u16 = 0x2E;

#[derive(Clone, Copy, Debug, PartialEq, Eq, Structural)]
pub enum ListKey {
    /// Enter pastes the selected item.
    Paste,
    /// Delete deletes it.
    Delete,
    /// Escape hides the window.
    Hide,
    /// Other keys go to the list itself.
    Pass,
}

/// What a key pressed in the item list does; the key code is the low 16 bits of `wparam`.
pub fn list_key_action(wparam: usize) -> (k: ListKey)
    ensures
        k == (if wparam as u16 == VK_RETURN {
            ListKey::Paste
        } else if wparam as u16 == VK_DELETE {
            ListKey::Delete
        } else if wparam as u16 == VK_ESCAPE {
            ListKey::Hide
        } else {
            ListKey::Pass
        }),
{
    let k = wparam as u16;
    if k == VK_RETURN {
        ListKey::Paste
    } else if k == VK_DELETE {
        ListKey::Delete
    } else if k == VK_ESCAPE {
        ListKey::Hide
    } else {
        ListKey::Pass
    }
}

/// The show/hide shortcut hides the window when it is visible and not minimized, and
/// shows it otherwise.
pub fn toggle_hides(visible: bool, iconic: bool) -> (hide: bool)
    ensures
        hide == (visible && !iconic),
{
    visible && !iconic
}

// ---------------------------------------------------------------------------
// Dark mode
// ---------------------------------------------------------------------------

/// Dark mode colours (0x00BBGGRR): window background, control background, text.
pub const DARK_BG_WINDOW: u32 = 0x00202020;
pub const DARK_BG_CTRL: u32 = 0x002B2B2B;
pub const DARK_TEXT: u32 = 0x00F0F0F0;

/// Colour messages of list boxes and edit controls.
pub const WM_CTLCOLOREDIT: u32 = 0x0133;
pub const WM_CTLCOLORLISTBOX: u32 = 0x0134;

/// How a control is painted in dark mode: text colour, background colour, and whether the
/// control brush (else the window brush) fills it.
#[derive(Clone, Copy, Debug, PartialEq, Eq, Structural)]
pub struct CtlColors {
    pub text: u32,
    pub back: u32,
    pub control_brush: bool,
}

/// Only in dark mode are colours chosen: light text everywhere, the control background
/// for list boxes and edit controls and the window background for the rest.
pub open spec fn ctl_colors_spec(dark: bool, msg: u32) -> Option<CtlColors> {
    if !dark {
        None
    } else if msg == WM_CTLCOLORLISTBOX || msg == WM_CTLCOLOREDIT {
        Some(CtlColors { text: DARK_TEXT, back: DARK_BG_CTRL, control_brush: true })
    } else {
        Some(CtlColors { text: DARK_TEXT, back: DARK_BG_WINDOW, control_brush: false })
    }
}

pub fn ctl_colors(dark: bool, msg: u32) -> (c: Option<CtlColors>)
    ensures
        c == ctl_colors_spec(dark, msg),
{
    if !dark {
        None
    } else if msg == WM_CTLCOLORLISTBOX || msg == WM_CTLCOLOREDIT {
        Some(CtlColors { text: DARK_TEXT, back: DARK_BG_CTRL, control_brush: true })
    } else {
        Some(CtlColors { text: DARK_TEXT, back: DARK_BG_WINDOW, control_brush: false })
    }
}

/// The visual theme of the controls.
pub fn theme_name(dark: bool) -> (s: String)
    ensures
        s@ == (if dark {
            "DarkMode_Explorer"@
        } else {
            "Explorer"@
        }),
{
    let v = if dark {
        chars_of("DarkMode_Explorer")
    } else {
        chars_of("Explorer")
    };
    string_from_chars(&v)
}

/// Whether a setting-change notice names the colour scheme, on which the theme is read again.
pub fn is_theme_change(name: &str) -> (r: bool)
    ensures
        r == (name@ == "ImmersiveColorSet"@),
{
    let v = chars_of(name);
    chars_eq_str(&v, "ImmersiveColorSet")
}

/// The background of the image panel and the text colour of its empty-panel note.
pub fn panel_colors(dark: bool) -> (c: (u32, u32, u32))
    ensures
        c == (if dark {
            (DARK_BG_WINDOW, DARK_BG_CTRL, DARK_TEXT)
        } else {
            (0x00F0F0F0u32, 0x00FFFFFFu32, 0x00404040u32)
        }),
{
    if dark {
        (DARK_BG_WINDOW, DARK_BG_CTRL, DARK_TEXT)
    } else {
        (0x00F0F0F0, 0x00FFFFFF, 0x00404040)
    }
}

// ---------------------------------------------------------------------------
// Messages
// ---------------------------------------------------------------------------

/// The warning shown when the snippets are at their limit.
pub open spec fn snippet_full_message_spec(max: nat) -> Seq<char> {
    "定型文は最大"@ + decimal(max) + "件です。\n設定で上限を変更するか、不要な定型文を削除してください。"@
}

pub fn snippet_full_message(max: usize) -> (s: String)
    ensures
        s@ == snippet_full_message_spec(max as nat),
{
    let mut v: Vec<char> = Vec::new();
    append_str(&mut v, "定型文は最大");
    push_decimal(&mut v, max as u64);
    append_str(&mut v, "件です。\n設定で上限を変更するか、不要な定型文を削除してください。");
    assert(v@ =~= snippet_full_message_spec(max as nat));
    string_from_chars(&v)
}

} // verus!
