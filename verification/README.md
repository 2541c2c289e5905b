# binmap

Binmap sweeps a Rust project's release-profile settings (opt-level, LTO,
codegen units, panic strategy, strip, debug info, ...), builds each
configuration, holds it to the conditions that apply (it builds, its tests pass, its
size is known, its benchmark is not worse, sanitizers are clean), and reports the size/runtime Pareto frontier, with every claim tied to
recorded tool output.

## Layout

- `src/` is the library, verified with Verus. Its contracts state what each
  function returns or changes, over spec functions and views:
  - `text`, `keyed`: strings, decimal rendering, sorted keyed collections.
  - `evidence`, `tool`, `finding`, `location`, `gate`, `error`: the evidence
    store (records, digests, redaction), findings that must cite what the
    store issued, and verification reports.
  - `config`, `configuration`, `capability`, `traits`, `event`, `facade`:
    the sweep matrix and its expansion, build configurations as cargo and a
    person read them, engine events and requests.
  - `builder`: cargo arguments and messages, `Cargo.toml` edits and diffs,
    project settings, project discovery, environment probes, the sweep
    itself (baseline, measurement, gates, noise floor, frontier) and the
    engine that holds runs, findings and proposals.
  - `state`, `views`, `theme`: the interface's state machine and what each
    view shows, and the design tokens.
  - `corpus`: the small programs the sweep is exercised on.
- `app/` is the program around the library: the command line, processes,
  files, JSON, and the machine work a sweep asks for.
- `tests/` runs the library against concrete cases.

Calls into `toml_edit`, `similar`, `sha2` and `regex` stand behind small
trusted wrappers in `src/`, each with a doc comment saying what its contract
claims of the outside function.
