# openvpn3_status

A COSMIC panel applet for OpenVPN 3 profiles and sessions, with its logic
verified in Verus.

- `src/` — the verified library:
  - `text.rs`: characters, Unicode whitespace, trimming, `str::lines`, substring search.
  - `sessions.rs`: the parser for `openvpn3 sessions-list` output, with its laws
    (a blank line ends a session block, dash lines are skipped, a final line break
    changes nothing).
  - `status.rs`: session status from the session service's codes, the status a
    profile shows given its sessions, profile lookup.
  - `client.rs`: decisions between service calls — retrying while the service
    activates, naming imported profiles, which credentials to hand over, which
    sessions to close and how a command ended.
  - `metadata.rs`: profile metadata defaults and timestamps as text (via `chrono`).
  - `applet.rs`: the applet as a state machine (popup, profile list, dialogs),
    each message mapped to a new state and commands, with its laws.
  - `types.rs`, `error.rs`: the data and errors, with their views.
- `tests/` — tests run against the compiled library.
- `app/` — the COSMIC application, the D-Bus client (zbus) and the
  command-line client (tokio), which perform the library's commands.
