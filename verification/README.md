# blaseball_vcr

Storage formats and lookup logic for recorded Blaseball data, with their behaviour stated
in `requires` / `ensures` contracts and proved by Verus.

- `src/` is the verified library: the event feed (blocks, stored events, position tables,
  tag and phase indexes, recording), entity tapes, JSON patch sequences and their headers,
  tributes, site resources and binary patches, paging of listings, the stream snapshot's
  date and postseason rules, and the small encodings they share (varints, dates, UUID
  tags and text). Calls into zstd, bsdiff, fst and sha2 stand behind trusted wrappers whose
  contracts are written in their doc comments.
- `app/` holds what the library leaves to ordinary Rust: files and memory maps, MessagePack
  and JSON values, JSON patch application, caches, and the assembly of the stream snapshot.
- `tests/` runs the library on concrete values.
