# wright

The verified core of the Wright Overwatch Workshop tooling, written in Verus.

`src/` is the library; every function in it, apart from the trusted wrappers
around outside crates, is verified against its contract. Its main parts:

- `edit` — source-edit transactions (ordering, conflict detection, atomic
  application and previews), textual and semantic rename requests, and
  validation of a transaction against a project.
- `document`, `language` — the language service's open-document store
  (client versions, UTF-16 positions, URI/path mapping) and its requests.
- `provider_edit` — provider-driven rename and edit validation as a state
  machine: each step takes the provider's reply and names the next action.
- `hir`, `wir` — the Opy HIR and the Workshop IR models, their structural
  validation and their deterministic dumps.
- `lower` — the HIR → Workshop IR lowering: global slot assignment, the
  synthetic initialize rules, subroutine rules, statements and values, each
  stated exactly against a functional specification.
- `artifact` — loading a provider's canonical Workshop artifact (parse,
  source-map application, validation), compiling it to emitted Workshop
  text, and mapping Workshop errors to diagnostics in the artifact or the
  authored sources.
- `input`, `config`, `result`, `settings`, `session`, `source_provider`,
  `opy_provider`, `workshop_provider` — input resolution, session decisions,
  the settings name tables, provider resolution, release-archive reading and
  installation planning, and the mapping of provider and Workshop findings to
  diagnostics.
- `workshop_compat` — the Workshop semantic comparison: both texts parsed
  and validated, debug HUD strings canonicalized (the rewrite is proved
  against a model of the action and value shapes it reads), and the
  outcome of each side and the equivalence verdict named as functions of
  the two texts.

Calls into outside crates (`sha2`, `url`, `serde_json`, `workshop-rs`) stand
behind small trusted wrappers. Where a crate documents its result in a few
lines, the wrapper's contract states it; where the result is a function of
the arguments that takes pages to state (a digest, a parse and validation of
Workshop text), the contract names it, and the verified code around the call
is proved against that name.

`app/` is the I/O edge: reading inputs, downloading the OPY provider and
writing it to the store, running the OverPy adapter, and formatting float
values for the IR dumps.

`tests/` holds the test suite, run against the compiled library.
