# miz

A pacman-style package manager front end for image-based systems (a
read-only, image-provided `/usr` with packages layered on top), written in
Verus. The library's logic carries `requires`/`ensures` contracts that Verus
proves.

## Layout

- `src/` — the verified library:
  - `config`, `layering`, `schema`, `paths`: configuration (vendor and user
    TOML layers merged per key, `[[repos]]` merged by name), signature levels,
    rerooting of paths under an alternative root.
  - `common/`: sizes and dates, the image package database (`desc`/`files`
    parsing, provisions), progress labels, transaction prompts and error lines.
  - `operations/`: the `-D`, `-Q`, `-R`, `-S`, `-U`, `-F` and `-T` logic over
    plain package records.
  - `images/`: the `-I` verbs, the image `Describe` rendering, job outcomes,
    and the live relay of layered packages onto a per-version root snapshot,
    as a state machine whose safety properties are proved.
  - `render/`: the exact output each report prints.
- `tests/`: tests of the library on concrete values.
- `app/`: the program around the library: argument parsing, libalpm, D-Bus,
  files, terminal output. It performs the I/O the library asks for and hands
  back the results.
