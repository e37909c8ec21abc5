# CoraOS

A management platform for Debian servers: an HTTP API (users and roles, systemd
services, the journal, apt updates, backups, storage, settings, an audit log) and
a console welcome screen.

## Layout

- `src/` is the library, verified with Verus. It holds the rules of the platform:
  who may call which route and what a refused request is answered, the field
  rules of request bodies, password hashing, signed session tokens, the
  parsers of command output (`systemctl`, `apt`, `journalctl`, `/proc/mdstat`,
  `df`, `lsblk`, `vsftpd.conf`, `/etc/passwd`), which routes need a token, the
  commands the server runs and the files it writes, and the figures of the console dashboard. Each public
  function states its result in its contract; the laws that span functions are
  public proof functions (`lemma_*`).
- `app/` is the program around the library: the axum server, the SQLite
  database, running commands, reading files and the clock, the JSON forms of the
  library's types, and the console screen. `coraos welcome` runs the console
  screen; without arguments the server starts.
- `tests/` runs the library on concrete values.

Calls into `argon2`, `chrono`, `jsonwebtoken`, `rand`, `serde_json` and `validator` stay in the
library behind small trusted wrappers whose contracts say what those crates do.
