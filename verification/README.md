# iptv-core

A library that models, searches and plays IPTV catalog data (channels, feeds,
streams, countries, languages, categories) sourced from the iptv-org API, with
its logic written in Verus and proved against its contracts.

## Layout

- `src/` — the verified library.
  - `domain` — the catalog models and their mathematical views.
  - `repository` — the catalog repository: publishes what the cache accepted
    from a refresh, merges channels by identifier, groups feeds by channel and
    streams by (channel, feed), and answers lookups.
  - `catalog_service` — search and filtering (by category, country, language).
  - `stream_resolver` — the candidate streams of a channel.
  - `playback` — the playback state machine with fallback to the next
    candidate stream.
  - `pipeline` — what a player adapter decides around a media pipeline: the
    headers a stream's source needs and the playback event each bus message
    stands for.
  - `mapper`, `dto` — conversion of API records into catalog models.
  - `cache_entry` — the framing and expiry rule of cached items.
  - `http` — base URL normalization, request URLs and method names.
  - `ports` — the interfaces applications implement (data source, cache,
    persistence, player).
  - `facade` — one object offering catalog and playback together.
- `app/` — the adapters: the iptv-org REST client (reqwest), the redb file
  cache, serde records, and a shared repository handle.
- `tests/` — tests of the library.
