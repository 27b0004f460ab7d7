# Vesper

A keyboard-first local media gallery for Linux: it indexes local images and
videos, derives tags from the folders they sit in, and browses them offline
and read-only.

## Layout

- `src/` is the verified core, written with Verus. Every function there
  carries a contract that Verus proves: media classification, folder-derived
  tags, ignore-rule evaluation, the per-entry decisions of the directory walk,
  scan bookkeeping, SQL planning for media queries, thumbnail cache keys and
  the decoded-thumbnail LRU, backend event-loop state, root liveness, live
  update routing and retry, maintenance exclusion, grid ordering and
  filtering, multi-selection, keyboard maps, and the text the interface shows.
  Properties that span several calls are stated as public proof functions
  named `law_*`.
- `app/` is the program around it: GTK/libadwaita interface, SQLite access,
  filesystem walking and watching, thumbnail decoding, logging and the async
  runtime. It hands plain values to the core and acts on what comes back.
- `tests/` exercises the core on concrete values.
