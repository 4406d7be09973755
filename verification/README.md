# Blaze

A file-system indexer: it walks a directory tree into an SQLite database
and a Tantivy search index, then keeps both in step with file-system
events.

`src/` is the verified library, checked with Verus:

- `paths`: Unix path components, component-wise prefixes, joins, and
  the directory-path normalization the database uses;
- `walker`: which names and paths are never indexed, entry ids, and the
  entry recorded for a path;
- `events`: classification of event flags and the reduction of a burst
  of events to one action per path;
- `indexer`: the live indexer's loop steps, the order in which a batch
  is applied (actions, commit, then checkpoint), the watcher's
  decisions, and what it does for each action;
- `checkpoint`: the stored event-id checkpoint and the warm/cold start
  decision;
- `db`: bulk-transaction bounds, rows to entries, and directory
  listing order;
- `schema`: the search index schema and the document kept for an entry;
- `appdata`: where the data directory, the index and the database live.

`app/` is the daemon around it: the database, the search index writer,
the directory walk, the event stream and the settings file.
