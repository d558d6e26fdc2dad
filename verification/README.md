# cmln

Shared helper library for the kiosk display family, verified with Verus.

- `src/wire.rs`: the display-socket wire protocol (HELLO with magic and
  geometry, frame headers with a payload-size guard) and socket path
  resolution from plain values. Round trips and exactness of decoding are
  proved as laws.
- `src/feed.rs`: the host-feed read rule (staleness, saturating age) over a
  feed whose rows are carried opaquely, and the clock reading.
- `app/`: the JSON schema of the feed rows (floating point, `serde`), file
  reading, and environment/filesystem lookups for socket paths.
