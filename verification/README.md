# bevy_modal_editor — skill authoring core

The skill-authoring logic of a modal level editor, written in Verus: every operation on skills
(the rules file and the cast timeline of each) carries a contract, and Verus proves the code
against it.

## Layout

- `src/` — the verified library.
  - `model` — the skill data: rules, timelines, windows, cues (kept in slot order),
    acquisitions. Authored floats travel as bit patterns; `floatbits` states the few
    comparisons made on them.
  - `library`, `scan` — the in-memory skill library (sorted by id, its entries private to
    it), scanning and merging content roots, dangling trigger references.
  - `edits`, `cue_slots`, `templates` — timeline edits (windows, emitters, renames, spawn kinds),
    the cue slots a timeline exposes, and the starter templates.
  - `validation` — the per-skill validation report and the library-wide messages.
  - `save` — saving and reloading a skill's two files: stale-disk checks, what is written, and
    patching the rules table inside an existing TOML document (through `toml_edit`).
  - `readouts`, `chips`, `labels`, `triggers`, `presentation`, `palette`, `selection`, `presets`,
    `assets` — what the panels, palettes and browsers show and what their picks do (the trigger
    cards' condition catalog among them).
  - `preview`, `scrub`, `stage` — the preview's decisions: derived cues, staged paints, charge
    tiers, the scrub session's state machine, and acquisition resolution on the stage.
  - `laws`, `report_laws` — properties that relate several operations, and what the validation
    report shows for one trigger card or cue row.
- `tests/` — tests of the library.
- `app/` — ordinary Rust around it: serde copies of the data for the on-disk formats, file I/O,
  and the floating-point geometry of the strip, stage and viewport.
