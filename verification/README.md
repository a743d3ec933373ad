# PlayFusion core

The verified core of PlayFusion, a terminal music player for YouTube /
YouTube Music. Every function in `src/` carries a Verus contract and is
proved; `app/` is the thin asynchronous shell around it.

## Layout

- `src/domain` — tracks, artists, albums, genres, playlists, stream
  resolutions.
- `src/media` — stream resolution: failure classification, retry/backoff
  policy, per-provider circuit breakers, the provider registry and router,
  the bounded FIFO resolution cache, the expiration sweep, and the resolver
  as a step machine (cache → plan → calls → policy → validation) whose
  provider calls per resolution never exceed the policy's global cap.
- `src/playback` — master position clock, formal queue (repeat, seeded
  shuffle), preload decision of the next track, hot-failure recovery.
- `src/recommendation` — the recommendation session (generations, stale
  answers) and the interaction-signal model.
- `src/infrastructure` — adaptive buffer policy, buffering monitor tick,
  the state after a seek and the natural-end check, download buffer with its
  reading and seeking rules, storage rows.
- `src/app` — playback contract types, engine selection, enrichment of
  search results with related tracks.
- `src/catalog` — default thumbnail candidates and the provider chosen for
  a source.
- `app/` — CLI, async drivers (resolver, preload, playback router), floating
  point scores and the user profile built from them.

Durations are milliseconds; monotonic instants are milliseconds supplied by
the caller, wall-clock instants are Unix milliseconds.
