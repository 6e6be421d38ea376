# gemma_chat

The verified core of a desktop chat client for a local Ollama server, and of
its Windows installer.

`src/` is the library, checked by Verus:

- `text` — Unicode white space, trimming, ASCII lower-casing, moving between
  `str`, `String` and `Vec<char>`.
- `conversation` — conversation titles, the search filter, message roles.
- `decimal` — `i64` to and from decimal text.
- `settings` — which settings are read back from the store, with their
  defaults, and which are written; saving then reading gives the settings back.
- `base_url` — only an HTTP(S) inference server on this machine is accepted.
- `chat` — the event name, reasoning level and numeric options of a request.
- `stream` — how the streamed reply is cut into lines and turned into events;
  every run, ended, stopped or failed, hands out one final event, the last,
  save that an error is still reported after a final event that could not be
  delivered.
- `clock` — time stamps in milliseconds since the Unix epoch.
- `schema` — adding a missing column to an older database.
- `installer` — the PowerShell shortcut script and its encoding, the
  uninstall commands, the uninstall registry values.

`app/` is the Tauri shell around it: the commands, the SQLite store, the HTTP
client and its event loop, and the installer's file, process and registry
work. `tests/` runs the library with the real outside crates.
