# barber-api

A service that trims ads out of podcasts: it subscribes to RSS feeds, downloads
episodes, has them transcribed by a speech-to-text sidecar, scores the transcript's
segments for ads, and cuts the ads out of the audio with ffmpeg.

## Layout

- `src/` is the verified library (Verus). It holds the service's rules:
  - `feed`: reading RSS channels and picking episodes out of them;
  - `models`, `ids`: records and the name-based identifiers of podcasts and episodes;
  - `chunking`, `segmenter`, `scoring`, `detection`: transcript chunks, segments
    between topic boundaries, and the keyword and duration scoring of each segment;
  - `editor`: the blocks of audio to keep and the ffmpeg concat list that splices them;
  - `pipeline`, `services`: what happens after each download, transcription and
    detection, and the errors the routes answer with;
  - `error`, `api`, `config`, `extractors`, `transcribe`: HTTP statuses, request and
    response bodies, settings, uploads and the sidecar's endpoints.
- `app/` is the service around it: routes (axum, aide), workers (tokio), HTTP
  (reqwest), storage, sentence embeddings (fastembed) and the floating point
  boundary search over them.
- `tests/` runs the library on concrete values.

Times inside the library are whole milliseconds (`u64`); the JSON bodies carry
seconds. Identifiers are UUIDs held as `u128`. Ad scores are `i32` and wrap on
overflow.

Storage keeps its records in memory for the life of the process.
