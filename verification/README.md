# dojo_migrate

A verified library (Verus) for moving triage state between matching
DefectDojo findings of different products, and the command-line program
around it.

## Layout

- `src/` — the library, verified with Verus.
  - `matching/` — the keys by which findings are matched and the
    correlation of a source finding with the findings of a destination.
  - `plan/` — the migration plan, its builder, the decision CSV rows derived
    from it, and the checking of a filled-in decision file.
  - `dry_run.rs` — the preflight of approved operations and the patches and
    notes prepared for them.
  - `execution.rs` — the step-by-step application of an item: which request
    to send next and how DefectDojo's answers settle the item.
  - `api/` — the API records and the request-side decisions of the client
    (URLs, query pairs, origin checks, pagination).
  - `config.rs`, `cli.rs`, `error.rs`, `text.rs`, `ids.rs`, `weburl.rs` —
    configuration checks, command-line choices, errors, text and id helpers,
    and URLs as the `url` crate handles them.
- `app/` — the program: argument parsing, files, HTTP, progress bars.
- `tests/` — tests of the library.

## Checking

The library's contracts and laws are checked by Verus; `tests/` runs the
library on concrete cases.
