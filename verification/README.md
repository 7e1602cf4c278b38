# braid

Session plumbing for Braid, a thin netplay wrapper around retro emulators,
written in Verus.

- `src/` is the verified library:
  - `emulator` — the RetroArch-style command line for the host and peer roles;
  - `hash` — ROM identity hashes (SHA-1, 40 lowercase hex digits);
  - `manifest` — the game manifest a host publishes;
  - `session_link` — `braid://` links, written and read back;
  - `signaling` — the HTTP signaling endpoints and the base64 state payload;
  - `rendezvous` — the UDP rendezvous service's registry and the client's
    retry schedule;
  - `cli` — the command line's shape and the decisions of `host` and `join`;
  - `dashboard` — the desktop dashboard's form, command lines and link reading;
  - `text` — string helpers.
- `tests/` exercises the library on concrete values.
- `app/` is the program around it: argument parsing (clap), JSON (serde),
  HTTP (reqwest), UDP (tokio), process spawning and the egui dashboard.
