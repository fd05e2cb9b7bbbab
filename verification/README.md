# forge

`forge` generates NestJS artifacts (modules, services, controllers and more)
from Tera templates, with naming variants derived from one input name, spec
files on request, and output paths resolved from a project's `forge.json`.

The decisions of the tool are a library verified with Verus; the command
line program around it does the input and output.

## Layout

- `src/` — the verified library
  - `artifact.rs`: artifact kinds and their aliases, name validation, the
    name variants, generation requests
  - `casing.rs`: case conversions (through `heck`)
  - `suggest.rs`: "did you mean?" suggestions by edit distance
  - `config.rs`: the `forge.json` settings, merged with defaults and the
    command line
  - `discovery.rs`: the upward search for the project root, one step at a
    time; each step keeps the answer, the nearest ancestor holding `forge.json`
  - `paths.rs`: joining paths, parents, display with forward slashes
  - `template.rs`: which templates belong to an artifact, the names of the
    files they produce, rendering with Tera
  - `generator.rs`: writing rendered files. Each file-system call that the
    library issues goes through a helper that records it, with its answer, in
    a ghost log; the contract states, over that log, which calls are issued
    for each file (existing ones skipped, no write in a dry run, the first
    failure returned unchanged). The log is the library's own record: the
    file-system trait has no contract, so nothing ties it to what an
    implementation actually does.
  - `cli.rs`: turning `forge generate` arguments into a request, classifying
    error messages
  - `output.rs`: the report of a run (grouping by directory, labels, counts)
  - `text.rs`, `error.rs`: text helpers and the error type
- `tests/` — tests of the library
- `app/` — the `forge` program: argument parsing, the file system, reading
  `forge.json`, embedded templates, terminal output
