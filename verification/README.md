# database

The decisions of a transactional document database, verified with Verus.

- `src/` is the library: how a fresh database is laid out and in what order it is
  written (`initialize`, `initial_writes`), which tables and indexes a snapshot
  has and how it is loaded (`metadata`, `registry`, `snapshot`, `meta_ids`), how
  the change feed and the listing of a snapshot are cut into pages (`deltas`,
  `listing`), what is done in each attempt at a transaction and when transactions
  and vector searches are tried again (`retry`, `clock`), how conflicts are told
  (`occ`, `errors`), what a loaded database makes of requests (`database`,
  `search`, `storage`), and what a fatal error leads to (`shutdown`). What holds
  of several functions together is stated by the public proof functions whose
  names begin with `law_`.
- `tests/` runs the library.
- `app/` carries the decisions out against persistence, the committer and the
  search indexes, which it takes behind the trait `Services`.

Work that waits for something outside is a small machine in the library: it is
asked what to do next, and told what came of it.
