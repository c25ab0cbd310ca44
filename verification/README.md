# desym

Keeps files and symlinks on disk in line with a JSON configuration, and
remembers in a cache which paths it made, so that entries dropped from the
configuration are removed on the next run.

## Layout

- `src/` — the verified library: every decision of a run, with contracts
  checked by Verus.
  - `config.rs` — entries, settings and configurations; inheriting unset
    owner, group and mode; which cached paths are stale.
  - `settings.rs` — the run-wide settings, set once.
  - `cache.rs` — where the cache lives, the document it holds, and the
    decisions of loading it.
  - `created.rs` — making the directories above a path, and undoing that
    on failure.
  - `install.rs` — putting one file or link in place through a staging path
    and an atomic swap, and what happens to the replaced content.
  - `paths.rs` — path arithmetic and the staging and backup names.
  - `prompt.rs` — reading the user's answers.
- `app/` — the program: reads the configuration, does the file-system work
  each decision asks for, and talks to the user.
- `tests/` — tests of the library.

Each multi-step procedure (loading the cache, making directories, installing
a path, swapping it in) is a small state machine in the library: the program
performs the action the machine returns and hands back what happened.
