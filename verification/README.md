# openstory_console

The core of a terminal console that runs several game-bot accounts in one
process, written in Verus. The logic in `src/` is proved against contracts;
the few calls into std, tokio and unicode-width go through small trusted
wrappers whose contracts say what those libraries document. The shared
restart counters (`src/counters.rs`) are read and written by several threads,
so their methods promise nothing about the values; what is decided from a
copy of the error list is verified.

- `src/watcher.rs` – the restart state machine of one session (back-off,
  giving up, manual stops).
- `src/session.rs`, `src/sessions.rs` – one bot session and the set of
  sessions: starting, stopping, restarting, targeting commands (`@all`,
  `@prefix`), adding and removing accounts.
- `src/credentials.rs` – the optional password store.
- `src/profile.rs`, `src/wizard.rs` – the profile chooser and the login form.
- `src/console.rs`, `src/requests.rs` – the console: a key or a command line
  changes its state and yields effects (send a command, log a line, start a
  task, ...) that the front end carries out; the session operations those
  effects ask for, and the restart round run every frame.
- `src/side.rs`, `src/board.rs`, `src/panel.rs`, `src/bag.rs`, `src/text.rs` –
  what the account list, the board, the character panel and the inventory
  page show, and text helpers.
- `app/` – the program around the library: command line, files, terminal,
  bot tasks and drawing.
