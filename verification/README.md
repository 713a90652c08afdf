# zorg

A terminal manager for SSH connections: stored connections are searched by
fuzzy matching over name, user name and host name, opened with `ssh`
(through jump hosts where configured), and every session is recorded in a
history.

## Layout

- `src/` — the library, whose functions carry `requires`/`ensures` contracts
  checked by Verus:
  - `app.rs` — the main screen state: search, ranking of matches, history
    scrolling, and how results from the store are taken in.
  - `input.rs` — what each key does on the main screen and in the dialogs;
    work outside the state (store, agent, ssh) comes back as `Action`s.
  - `fuzzy.rs` — matching a query against a connection and splitting the
    matched positions over its fields.
  - `modals/` — the connection form, the delete dialog, the SSH key dialog
    and the jump host dialog.
  - `ssh.rs`, `history_view.rs`, `layout.rs`, `width.rs`, `number.rs`,
    `text.rs`, `connection.rs` — ssh arguments and agent output, history
    labels, screen layout, display widths, decimal numbers, text editing and
    the stored records.
- `app/` — the program: terminal drawing (ratatui, crossterm), the SQLite
  store (diesel), running `ssh`, `ssh-add` and `ssh-agent`, and the event
  loop that performs the actions the library returns.
- `tests/` — tests of the library on concrete values.
