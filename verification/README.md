# eltor_backend

The logic behind the El Tor desktop and web application, written in Verus: the
torrc configuration files (payment node lines, settings, templates), path and port
detection, the eltord and Arti process rules, the wallet endpoints' decisions,
the phoenixd download and start-up rules, the SOCKS router's request handling and
the log buffer. Every function in `src/` carries a contract; Verus proves each of
them except those of the few trusted wrappers around outside calls, which are assumed.

Layout:

- `src/text.rs` — character-level string helpers and their specifications
  (`trim`, `lines`, `join`, number parsing and printing).
- `src/torrc_parser.rs` — payment node lines, `key value` settings, and the laws
  relating writes to reads.
- `src/paths.rs`, `src/desktop.rs` — binary and data directory detection, torrc
  template substitution.
- `src/ports.rs`, `src/eltor.rs`, `src/arti.rs` — ports, PID files and process
  state decisions.
- `src/routes/` — wallet and phoenixd endpoint decisions.
- `src/socks.rs` — SOCKS5 greeting, target parsing and routing.
- `src/state.rs`, `src/lightning.rs`, `src/debug_info.rs`, `src/static_files.rs`,
  `src/ip.rs` — response types, the log buffer and smaller rules.
- `app/` — the HTTP server, file and network I/O and process control, which call
  the library and hand it plain values.
- `tests/` — tests of the library on concrete values.

Calls into outside crates (`rand`, `serde_json`, `zip`, `std::path`) stand behind a
few trusted wrappers (marked `#[verifier::external_body]`); their doc comments say what
is assumed of them, and one (`zip_error_text`) assumes nothing.
