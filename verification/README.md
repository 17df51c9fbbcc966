# maypop

The `maypop` command-line client for building and publishing Maypop apps with
Git, with its decisions written as a Verus-verified library.

## Layout

- `src/` is the verified library. Every function there carries a contract
  that Verus proves:
  - `text.rs`, `paths.rs`: strings and Unix paths as character sequences,
    with models of the `std` operations the client relies on (trimming,
    splitting, lines, path components, file names and extensions).
  - `credentials.rs`: the profile store, which login a command uses, and how
    saving a login or switching the default changes the store.
  - `auth.rs`: the browser approval flow as a state machine.
  - `project.rs`: `maypop.toml` read from a plain model of its TOML items,
    framework detection, package managers and build planning.
  - `config_file.rs`: the text of `maypop.toml` and `package.json` read into
    those models, and the text `maypop init` writes.
  - `bundle_upload.rs`: the bundle manifest and what stays out of a bundle.
  - `user_commands.rs`: `init`, `publish`, `app apply`, `status` and the Git
    credential helper: metadata of a new app, Git settings, remote URLs and
    the checks around publishing.
  - `ai.rs`, `mcp.rs`, `cli.rs`: media requests, MCP selection and header
    bindings, and command-line choices.
  - `messages.rs`: the text shown for every error of the library.
  - `workflow.rs`: the order of the steps of `init`, `publish` and
    `app apply`, as state machines that `app/` drives.
  - `laws.rs`: properties across operations, stated and proved as proof
    functions.
- `app/` is the program around the library: argument parsing, the HTTP API,
  files, Git processes and the environment; its error texts come from
  `messages.rs`. It asks the library for every
  decision and only carries the results out.
- `tests/` runs the library on concrete values.

Calls into `reqwest`'s URL parser, `mime_guess`, `base64`, `toml_edit` and
`serde_json` stay inside the library behind small trusted wrappers whose
contracts say what the outside crate is relied on for.
