//! Text, state and geometry logic of a clipboard history and snippet manager.
pub mod text;
pub mod hotkeys;
pub mod storage;
pub mod session;
pub mod layout;
pub mod utf16;
pub mod ui;
