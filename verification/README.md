# pocketserver

The verified core of a small home-server control plane: a daemon that keeps
routes, dynv6, security and mail settings, renders the configs of three
backends (rpxy, rpxy-l4, stalwart) from them, runs those backends, and keeps
dynv6 hostnames pointed at the machine; and a UI whose forms edit those
settings through the daemon's HTTP API.

- `src/` is the library, verified with Verus:
  - `state` — the persisted settings and the runtime sync status;
  - `toml_doc` — TOML values built with the `toml` crate and their model;
  - `config_gen` — the rpxy, rpxy-l4 and stalwart documents and their paths;
  - `process` — the backends, their status listing, the table of their
    child processes and the start check;
  - `api` — the decisions behind the HTTP API (service control, apply, routes);
  - `dynv6` — sync decisions, percent-encoding, update URLs, sync status;
  - `network` — interfaces and the addresses published for one of them;
  - `static_server` — the table of per-route file servers (a `HashMap` by
    route id) and which of them to stop;
  - `ids` — route and rule identifiers;
  - `text` — decimal text, joining, trimming, comma splitting;
  - `ui` — the DTOs, the form logic and the Android-specific decisions.
- `app/` is the daemon program: the axum HTTP API, the state file, the child
  processes, the static file servers, the dynv6 loop, the UI's HTTP client and
  the Android JNI glue.
- `tests/` exercises the library on concrete values.
