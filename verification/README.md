# codex_halo

The core of Codex Halo, a screen-edge "breathing light" that shows whether
Codex is working, waiting for the user, or done. The library in `src/` is
written in Verus and its functions carry contracts that Verus proves, with
these exceptions, which are trusted rather than proved:

- four small wrappers around outside calls: `dirs::home_dir` and
  `dirs::data_local_dir` (no contract: the answer depends on the
  environment), the system clock (no contract: the answer depends on the
  time), and `std::str::from_utf8` (succeeds exactly on valid UTF-8 and returns
  the text those bytes encode);
- the declaration of `std::path::PathBuf`, carried through unchanged.

`unix_time_ms` reads the clock through that wrapper and promises nothing of
the reading; how a reading is narrowed is stated by `millis_from_reading`.

- `state` — the four halo states, their names and timeouts, and validation of
  the `state.json` bridge record at a given time.
- `text` — character-level equality, substring search and a set of texts.
- `activity` — recognition of `task_started` / `task_complete` session records
  from their top-level shape, and the set of running turns that decides when
  work starts and when the last overlapping turn finishes.
- `sessions` — incremental reading of session files (resume offsets, complete
  lines only), the recent-file list, newest-first ordering, duplicate
  suppression for the state bridge, and the session watcher's bookkeeping.
- `runtime` — the runtime state machine: entering states, revisions,
  timeout scheduling and expiry, gating of real events, Demo Mode.
- `settings` / `menu` — preferences, recovery of corrupt or missing settings,
  and the tray menu's effect on them.
- `platform` — where files live, as a base directory plus fixed components.

`app/` is the desktop shell around the library: Tauri windows and tray,
notifications, threads, file-system watching, serde records and log files.
