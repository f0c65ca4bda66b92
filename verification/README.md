# arcropolis

The logic of a mod loader for the ARC archive of a console game, verified with
Verus.

- `src/files/names.rs`: file names and extensions of `/`-separated paths, and
  the rewriting of a mod file's path into the path the archive knows it by.
- `src/files/visit.rs`: what becomes of each entry of a mod directory.
- `src/ctx/`: mod files (`FileCtx`), regional files, the archive tables the
  loader patches, and the ordered callback lists of other plugins.
- `src/api/`: the loader's state and its answers to other plugins, with the
  step-by-step loading of one file (`file_load.rs`).
- `src/arc/`: paths passed across the plugin boundary.
- `app/`: the plugin's C interface: global state, directory walks, the game's
  tables and region, and calls into other plugins.
