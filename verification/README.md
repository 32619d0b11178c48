# jian_guo_yun_relay

A WebDAV relay in front of one Nutstore (Jianguoyun) file: clients such as
KeePass talk to the relay with Basic or Bearer credentials, and the relay
reads and writes the single upstream resource with its own account, checking
the client's version baseline (`If-Match` / `X-Base-ETag`) before each PUT.

## Layout

- `src/` — the library, verified with Verus:
  - `config/` — configuration from environment values, host allow-list,
    resource URL, request-path matching (percent-decoding);
  - `auth.rs` — Basic/Bearer checks and the `WWW-Authenticate` challenge;
  - `version_guard.rs` — ETag normalization, baselines, the pre-PUT check;
  - `webdav/` — the vault handlers as a state machine (`dispatch_vault`,
    `vault_step`) and the PROPFIND document;
  - `bootstrap.rs` — the authentication layer and the vault-path gateway;
  - `upstream/`, `headers.rs`, `reply.rs`, `text.rs`, `error.rs` — upstream
    answers, header maps, responses as plain values, text helpers, errors.
- `app/` — the server: environment, axum routing, the reqwest client, and
  the loop that runs the state machine.
- `tests/` — tests of the library.
