# clipboard_manager

A resident Windows clipboard history and snippet manager. The library in `src/`
holds its logic, verified with Verus; `app/` is the Win32 program around it.

- `src/text.rs`: characters of strings, whitespace trimming, decimal and hexadecimal
  formatting, unsigned number parsing, the one-line escaping of stored items, line
  splitting, and the display form of list items.
- `src/utf16.rs`: zero-terminated UTF-16 for the window system, and lossy decoding.
- `src/hotkeys.rs`: shortcut actions, default assignments, modifier encodings, key names.
- `src/storage.rs`: the saved data, its text file format (reading and writing), and the
  proof that saving and reading again gives the data back.
- `src/session.rs`: the running application's data and what each user action does to it.
- `src/layout.rs`: thumbnail sizes, the image grid, control placement, window positions.
- `src/ui.rs`: small decisions of the window procedures, dark-mode colours, messages.

`tests/` runs the library on concrete values.
