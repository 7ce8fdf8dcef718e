# ergodox_display

The verified core of an always-on-top Ergodox EZ layout overlay.

- `src/` is the library, checked by Verus:
  - `layoutstore` reads the layout id and revision a user pastes (URL,
    `hash/revision` or bare hash), reads the Oryx answer and the stored
    layout as JSON, and checks that a layout document can be displayed;
  - `json` holds the JSON documents the layout logic reads (parsed from text
    by serde_json) and writes the text of the layout request;
  - `oskeymap` holds the keycode tables and turns the characters the OS
    layout produces into key labels (X11 and Windows rules, dead keys, Shift
    aliases), and decides when a layout map is new;
  - `hid` holds the Oryx raw-HID protocol decisions: device matching,
    pairing, packet decoding and which connection states get reported;
  - `text` holds the character classes and string helpers they share.
- `app/` is the Tauri program around it: windows, tray, HID and X11/Win32
  access, HTTP, files and the serialised copies of the library's types.
- `tests/` runs the library on concrete values.
