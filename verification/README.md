# strata-poc

The verified core of the Strata binary-investigation workbench, written in
Verus.

- `src/` is the library. Every function there carries a `requires`/`ensures`
  contract that Verus proves: stored session ranges and cohorts, the
  workspace snapshot checks and session journal checks, the changed keys
  between a live and a saved workspace, the stored form of 128-bit
  identifiers, cohort selection over projected points,
  discovery leads and the investigation and region models built from them,
  projection composition parameters and integer coordinate mappings
  (`hilbert_2d` proved a bijection onto the square with neighbouring
  steps), local project locators and preferences, texture tiling, byte previews and
  selection previews, and the command line.
- Calls into `std::path` and `serde_json` sit behind small trusted wrappers
  in `src/paths.rs` and `src/branches.rs`. `Path::join`, `file_stem` and
  `with_file_name` are stated as the documentation gives them, and
  `with_file_name` is also stated outright on plain absolute paths; `parent`,
  `file_name` and `strip_prefix` are named, with their results stated on
  absolute paths in plain form (no `//`, no trailing `/`, no `.` segment)
  and, for `file_name`, on any path whose final segment is a normal name.
  Base-sixteen parsing calls `u128::from_str_radix` behind a wrapper in `src/stored_ids.rs` whose
  contract restates what std documents.
- `app/` is the executable: argument handling, file I/O with bounded,
  atomically replaced JSON files, reading saved workspace JSON for the
  library's comparison, and the floating-point code: screen geometry,
  control ranges, and the window features, colours and coordinates of
  projection points built on the library's exact anchors.
- `tests/` exercises the library on concrete values.
