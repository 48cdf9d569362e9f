# shellfleet

The server of a small fleet of Linux hosts. Agents on the hosts and users in a
browser connect to it by WebSocket. It passes terminals, logs, package upgrades,
backups and probes between them, keeps who may do what, and tells of what goes
wrong.

The rules of the server are a library, written in Rust and proved with Verus. The
program around it reads and writes.

## Layout

- `src/` is the library. Every function has a contract. Laws that relate several
  functions are the public proof functions whose names begin with `law_`.
  - Signing in: `auth`, `signin`, `mfa`, `passkey_mfa`, `cli_auth`, `device_auth`,
    `tokens`, `users`, `invites`.
  - At the door: `throttle`, `anon_limiter`, `csrf`, `rbac`, `ip_allowlist`,
    `security_headers`, `weburl`, `entrance`, `api_auth`, `access`.
  - Agents and users: `hub` holds what is connected. `agent_session` and
    `ui_session` say what one connection does, `ui_gate` what a user's message has
    to pass, `operation_routing` whose an operation is.
  - Work on the agents: `agent_dispatch`, `agent_reports`, `fan_out`,
    `update_windows`, `backups`, `health`, `probe_library`, `schedule`, `labels`.
  - Around it: `webhook`, `notifications`, `telemetry`, `metrics`, `tls`, `api_v1`, and
    `ee`, `ee_recording` and `internal_auth` for the traffic with the sidecar.
  - Underneath: `text`, `text_order`, `strmap`, `record`, `message`, `db`.
- The modules `addr`, `clock`, `crypto`, `json`, `json_object`, `jwt`, `primitives`, `random`,
  `secret` and a few others call outside crates. Each such call is a small function
  that is trusted; its comment says what is claimed of it.
- `tests/` runs the library with the outside crates.
- `app/` is the program: HTTP, WebSockets, SQLite, TLS, webhooks.
