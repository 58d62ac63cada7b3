# ReproBisect

ReproBisect finds out which tested change of a build environment changes the bytes that a build
makes. It rebuilds a project under a controlled baseline, varies one setting at a time, reverts it,
and reports the settings whose change repeatedly explains a difference.

- `src/` is the library: reading artifacts, planning and judging experiments, minimizing
  differences, diagnoses, fix candidates and their patches, reports, configuration, evidence of
  earlier versions and project detection. It is written in Verus; every function states what it
  returns, and Verus proves it. What the library takes from other crates stands behind a few
  functions whose contracts are believed: SHA-256 (`sha2`), hexadecimal text (`hex`), JSON
  (`serde_json`), TOML (`toml`) and some of the standard library.
- `tests/` runs the library on concrete values.
- `app/` is the program around it: the command line, files, containers and the statistics in
  floating point.

A path or an identifier is a `String` in the library. A number in floating point is held as its bits.
