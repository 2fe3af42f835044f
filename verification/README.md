# open-with-codex-app

Registers user-scoped desktop integrations for opening folders in the Codex desktop app: a
Windows Explorer folder and folder-background context menu or a macOS Finder service, and a
`codex app <dir>` command shim whose directory is put on the user's PATH. `uninstall` removes
what was registered.

## Layout

- `src/` is the library, verified with Verus:
  - `cli.rs` parses the command line (`Command`, `parse_command`, `usage`).
  - `registration.rs` plans which integration pieces an install run adds.
  - `platform/flow.rs` holds the install and uninstall runs as step functions: the caller does
    the outside work that a step names and hands its outcome back; the step function decides
    what comes next and what the report says.
  - `platform/windows.rs` and `platform/macos.rs` hold the paths, PATH values, registry string
    encoding, shell-profile blocks and forwarding decisions of each desktop;
    `platform/macos_assets.rs` the Finder service files; `platform/unsupported.rs` the
    behaviour on other systems.
  - `text.rs` holds the text operations the rest is built from, with their specifications.
- `app/` is the program: argument handling, the file system, the registry, processes, and the
  loops that drive the step functions.
- `tests/` runs the library on concrete values.
