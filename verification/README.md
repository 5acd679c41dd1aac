# rusty_procgen_preflight

A deterministic dungeon-generation library whose behaviour is stated in
Verus contracts and proved.

- `src/` is the verified library: bounded cellular-automaton workloads
  (`cellular_automata/`), intent graphs and their rewrite rules (`graph*`,
  `candidate`, `procgen_core`), spatial-intent annotation and the
  intermediate breakdown (`spatial`, `breakdown`, `intermediate*`),
  physical connection plans (`connection_plan`), 2D geometry checks and
  previews (`geometry*`, `preview`), the shape catalog (`catalog`), and the
  catalog-aware pieces: outcome metrics and selection
  (`catalog_outcome`, `catalog_selection`), the best-first section router
  (`catalog_route`), geometry alignment (`catalog_geometry`) and the
  hash-chained generation trace (`catalog_trace`) with its event-by-event
  replay against a generation result (`catalog_replay`). `text`, `json`,
  `text_set` and `sorting` hold the canonical JSON, hashing and ordering
  that artifacts share; `flow` and `topology` hold item-aware reachability
  and structural fingerprints.
- `tests/` runs the library on concrete artifacts.
- `app/` is the `rusty-procgen` command-line adapter: it parses arguments,
  reads and writes JSON through serde copies of the library's types, and
  checks each library function's precondition before calling it.
