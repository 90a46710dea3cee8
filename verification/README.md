# peteksim

The rule layer of the petekSim reservoir-appraisal toolkit, verified with Verus.

`src/` holds the decisions the toolkit makes on names, files and counts, each
with a contract proved by Verus:

- `text`, `order`, `paths` — ASCII case folding, whitespace trimming,
  code-point order and sorted sets, and file-name parts as `std::path` reads them.
- `classify`, `inventory` — which loader a detected file goes to, and the
  load inventory that records every file's outcome.
- `wells`, `tops` — well ids from survey/log file names, core-file merges,
  bore selections, Petrel tops tokens and their `Other` contact rows.
- `vocab`, `layering`, `fluid`, `error` — the user-facing vocabularies and the
  errors that name a refused word.
- `framework`, `mc` — horizon sources and roles, footprint outline, zonation
  checks, per-zone prior tables, and the zoned Monte Carlo's draw sharding.
- `charts`, `logs` — chart labels and legends, the rendered property, and the
  byte layout of the Wells tab's numeric lanes.

The laws the library keeps are public proof functions named `law_*`.

`app/` is the unverified edge: the file-system walk over petekio's loaders,
the floating-point halves of the payload rules, and serializable copies of the
payload types. `tests/` runs the library on concrete values.
