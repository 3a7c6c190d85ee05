# twitch_music_bot

The decision logic of a Twitch music-request bot, written in Verus and
proved against its contracts.

- `src/` is the verified library: chat command parsing and replies, song
  request admission, vote skips and playback decisions, the per-client rate
  limiter, CORS origin patterns, OAuth URLs and callback steps, session
  tokens (signing, checking, expiry with leeway), token encryption, link and
  duration parsing, search-hit selection and request URLs for the music
  sources, stream choice and failover, overlay helpers and the metric
  updates the service emits.
- `tests/` runs the library on concrete values.
- `app/` is the service around it: the HTTP API, OAuth handlers, overlay
  WebSocket, playback loop, chat bots, PostgreSQL queries, the music source
  clients and the metrics exporter.

Calls into outside crates that the library makes (AES-GCM, base64, the OS
random source, `url`, `uuid`, `urlencoding`, `regex`, `jsonwebtoken`) go
through small wrappers whose contracts state what those crates document.
