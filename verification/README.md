# sshost

A terminal UI for managing SSH connections: browse, filter and connect to the
hosts of `~/.ssh/config`, add, edit and delete host entries (with
`LocalForward`/`RemoteForward` tunnels), test reachability, generate keys with
`ssh-keygen`, upload keys with `ssh-copy-id`, copy files with `scp`, run a
command on a host, and browse, import and remove `~/.ssh/known_hosts` entries.

The logic is a Verus library whose behaviour is stated in `requires`/`ensures`
contracts and proved; the program around it draws the screens and does the
input and output.

## Layout

- `src/` – the verified library
  - `text.rs` – character-level text operations (lines, trimming, decimal
    numbers) specified over `Seq<char>`
  - `ssh_config/config_reader.rs` – writing a `Host` block, removing or
    replacing the block of a host, building host entries from the rules the
    `ssh2_config` parser reports
  - `ssh_config/known_hosts.rs` – the hosts of a `known_hosts` text and
    removing the lines of a host
  - `history.rs` – the bounded connection history and "… ago" labels
  - `key_files.rs` – which files of `~/.ssh` are offered as keys, sorted
  - `screen.rs` and `screen/` – every screen as a state machine: a key press
    changes the screen's state and leads to staying, switching screen, or a
    request for outside work
  - `app.rs` – the application state, `update` for a key press, and the screens
    shown after an external command ends
  - `commands.rs` – the argument lists of `ssh`, `ssh-copy-id`, `ssh-keygen`
    and `scp`, the askpass script, failure messages
  - `form_field.rs` – the texts of form fields as drawn
- `app/` – the program: terminal handling, drawing with `ratatui`, file
  access, running the external commands, reachability probes
- `tests/` – tests of the library on concrete values
