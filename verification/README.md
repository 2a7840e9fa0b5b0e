# slippi_ratings

Match history, per-character Glicko-2 ratings and matchup statistics for Super Smash
Bros. Melee games recorded by Slippi.

- `src/` is the verified library (Verus): the match model and its codes, reading decoded
  replays and CSV exports into matches, the match store, the queries of the web API, the
  day-by-day schedule and per-character game lists that feed the rating update, the
  matchup counts, and the decoding of `.slp` bytes (through peppi, once a verified check
  of the event stream has shown that the decoder handles them) into what the match logic
  reads. Every public function states its result in its contract; the `lemma_*`
  proof functions state the laws that relate them.
- `app/` is the program around it: configuration, finding and reading replay files, the
  database file, the floating-point Glicko-2 update, the background watcher and the web
  server.
- `tests/` runs the library on concrete values.
