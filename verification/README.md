# git-foreach

Run one shell command across many local git repositories at once, from a
mouse-driven terminal UI.

The decisions of the program live in a library verified with Verus; a thin
binary around it owns the terminal, the file system, the child processes and
the clipboard.

## Layout

- `src/` — the verified library (`git_foreach`):
  - `repo.rs` — repositories found on disk, sorted by fqdn, user and name.
  - `tree.rs` — the fqdn → user → repo tree: grouping, folding, the visible
    rows and the cursor.
  - `app.rs` — the application state and the single action hub: every key,
    click and keymap entry becomes an `Action`, and `App::apply` says what it
    does to the state and which outside work (`Effect`) follows.
  - `events.rs` — keys, clicks and the wheel turned into actions.
  - `view.rs`, `pieces.rs` — what the panes show: the stacked output boxes and
    their visible window, status labels and colors, the copied text, and the
    styled pieces of tree rows, box headers and buttons.
  - `keys.rs`, `config.rs`, `patterns.rs` — the keymap, the configuration and
    the glob patterns that pre-check repos (matched with the `glob` crate).
  - `input.rs` — the command line: typed keys and pastes are edited by
    `tui-input`'s line editor, and its scroll within the prompt.
  - `runner.rs`, `output.rs` — events from running commands and the output
    they leave.
  - `text.rs`, `theme.rs` — string helpers and the icon sets.
  - `laws.rs` — properties proved across calls: the tree holds every repo
    once, toggling and check-all, runs ending, history browsing, focus, panes,
    preset keys, a keymap that binds each key once, and that a click on a drawn checkbox, fold marker, name or
    preset button does what it shows.
- `app/` — the binary: terminal setup and the event loop (crossterm, ratatui),
  the config file (serde, toml), the directory scan, the child processes and
  cancel (nix), and the clipboard (arboard).
- `tests/` — tests of the library.
