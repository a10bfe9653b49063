# parapet

The verified core of Parapet, a GTK3 status bar for EWMH desktops, and the
program around it.

`src/` is a Verus library holding the bar's logic with its contracts and
proofs:

- `config`, `validation`, `frames_config` — the configuration model, its
  validation rules with `~` / `$HOME` expansion, and the older flat format.
- `setup`, `paths`, `bar` — how each configured widget is set up, config and
  theme file locations, the command line, and the bar window's geometry and
  strut.
- `poll` — the interval scheduler that decides which widgets refresh and
  records what each refresh gave.
- `launcher`, `dropdown` — fuzzy scoring (through `fuzzy-matcher`), ranking,
  pinned apps and highlighted labels of the application launcher, and the
  state machine of its hover and click behaviour.
- `clock` — the clock text, formatted by `chrono`.
- `workspaces`, `volume`, `providers`, `labels` — parsers of what the window
  manager, `pactl`, sysfs and D-Bus report, and the decisions that turn the
  readings into bar labels.
- `text`, `numbers` — character-sequence and number helpers with their specs.

`app/` is the GTK program: TOML loading with serde, the window and widgets,
the data providers that read the system, and the refresh loop. Floating-point
formatting and all display, file, process and network access live there.
