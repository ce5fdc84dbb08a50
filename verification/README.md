# Quick Translate (verified core)

A pop-up translation tool for Windows: type or select text, and it is
translated with Google Translate's free endpoint. This crate is the tool's
core, written in Verus: every decision the tool takes is a function with a
contract, proved.

Layout:

- `src/` — the verified library
  - `text` — Unicode white space, trimming, line splitting, text equality
  - `lang` — choosing the target language from the script of the text
  - `config` — the settings, their defaults, and where they are kept
  - `json` — JSON documents as plain values (read with `serde_json`)
  - `translator` — the Google Translate request and what its answer says
  - `cli` — the command line
  - `instance` — single-instance locks (UTF-16 mutex names, outcome)
  - `popup` — the input pop-up's frame-by-frame state, the result pop-up,
    the result-file format and the text measures that size the windows
  - `tray` — tray icon, hotkey bounce filter, menu actions
  - `clipboard` — copying the selection: marker, waiting and polling rules
- `tests/` — tests of the library
- `app/` — the program around it: command line and file I/O, HTTP, the
  clipboard, the egui windows, Win32 calls, and the floating-point window
  sizes
