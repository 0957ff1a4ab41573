# rsground

The verified core of the rsground collaborative Rust playground backend.

- `src/` is the library, written in Verus: every function carries a contract
  that Verus proves, and the `law_*` proof functions state properties that
  span several functions.
  - projects and access: `access`, `project_access`, `project`,
    `project_manager`, `files`, `file_node`
  - collaborative text: `collab` (edits rebased with `operational_transform`),
    `document` (a `cola` replica), `ot` (byte-offset edits)
  - the language server and runs: `lsp`, `lsp_session`, `producer`,
    `communication`, `runner`, `docker`, `docker_session`
  - sign-in and links: `auth`, `links`, `http_errors`
  - shared helpers: `strs`, `text`, `optional`, `rsground`
  - `outside`, `crdt` and the wrappers marked `#[verifier::external_body]`
    are the trusted boundary to outside crates.
- `tests/` exercises the library on concrete values.
- `app/` is the HTTP server (actix-web) around the library: requests, tokens,
  GitHub and crates.io calls, and the shared state.
