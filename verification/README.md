# offsetscan

Static triage of files at corpus scale: PE header/section/import parsing with imphash,
printable-string extraction (ASCII and UTF-16LE), digests, and per-window entropy,
emitted as JSON.

Layout:

- `src/` — the verified library (Verus). `pe` parses PE files strictly (through
  `goblin`, see `pe_image`) with a lenient header-salvage fallback (`pe_format`,
  `imports`, with the ordinal name tables in `ordinals`); `strings` extracts printable strings; `digest` wraps MD5/SHA-1/SHA-256;
  `ioc` assembles the indicator panel; `entropy` holds the byte histogram and the
  window layout; `yara_scan` builds YARA match records; `text` renders numerals.
- `app/` — the command-line program: argument parsing, file walking, parallelism,
  the floating-point entropy values, and JSON serialisation.
- `tests/` — tests of the library.
