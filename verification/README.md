# dawnline

Dawnline treats the day as the main object: blocks of focused time, tasks and
notes, planned, executed and reviewed. The day is stored as an append-only log
of events, and its state is what replaying the log builds.

## Layout

- `src/` is the verified library (Verus).
  - `models.rs`: events, the day's state, replaying, and the task and block views.
  - `order.rs`: the stable ordering used by the task list and the timeline.
  - `state.rs`, `update.rs`, `action.rs`: the interactive screen as a state
    machine from inputs to the next state and the work to be done outside.
  - `store.rs`, `cli.rs`: what the command palette and the command line append.
  - `config.rs`, `theme.rs`, `ui.rs`: settings, colors, durations and key hints.
  - `text.rs`: trimming, word splitting, searching and number parsing over characters.
  - `clock.rs`: fresh identifiers and the current time.
  - `laws.rs`: properties that hold across events and inputs.
- `app/` is the program around it: the terminal, the files on disk, and the
  JSON and TOML forms of events and settings.
- `tests/` runs the library on concrete days.
