# local_remote_share

Share a local file as a temporary public HTTPS link: an in-process HTTP server
serves a landing page and the file under `/d/<token>`, and a `cloudflared`
quick tunnel exposes it.

- `src/` is the verified library (Verus): the share registry and its laws,
  share tokens, argon2 password checks (through trusted wrappers), HTML
  escaping, header-safe file names, human-readable sizes, content types, the
  landing page, the replies to landing, inline-view and download requests,
  recognition of the tunnel URL and the decisions of the tunnel scan and of
  the share commands. `src/laws.rs` states properties that span functions.
- `app/` is the Tauri application around it: the axum router, file I/O, the
  `cloudflared` child process, the tray, and the commands the window calls.
- `tests/` exercises the library on concrete values.
