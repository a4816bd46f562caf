# Termote backend

The backend of Termote, a multi-pane terminal workspace reachable from a
browser or a phone: it runs shells on pseudo-terminals, serves their output
over WebSocket, keeps the pane layout, groups and session, tracks connected
devices with a ban list, and proxies local web servers into browser panes.

The decisions are made by a library whose behaviour is specified and proved
with Verus; a thin program around it does the I/O.

## Layout

- `src/` — the verified library.
  - `state.rs`: panes, groups, devices, ban list and connection history,
    notifications, session save/restore; `AppState` and its invariant.
  - `handler.rs`: what each client request does to the state, and the work
    (`Action`s) it asks of the host.
  - `protocol.rs`: the authentication handshake and the events sent to clients.
  - `cli.rs`: command-line options, the generated token, IPC commands.
  - `web.rs`: the launch URL, the local-only proxy and the rewriting of
    proxied pages.
  - `listing.rs`: directory listings (hidden entries, stable sort).
  - `git.rs`, `ports.rs`: reading git and netstat output into events.
  - `upload.rs`, `terminal.rs`, `auth.rs`, `messages.rs`: the remaining
    decisions and the message types.
  - `text.rs`: character-level string functions with exact specifications.
  - `bindings.rs`: the calls into other crates and unspecified parts of std,
    each with the contract it is trusted to meet.
  - `laws.rs`: properties across operations (a read gives back a write, bans
    and unbans, bounded histories, only local proxy targets, and more).
- `app/` — the server process: configuration, logging, the axum routes and
  WebSocket loop, the pseudo-terminals, git and other commands, files on disk.
- `tests/` — tests of the library on concrete values.

Verify with `verus` on `src/lib.rs`; the program in `app/` links the library.
