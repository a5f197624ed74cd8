# pcktool

Parsing and writing of Wwise audio packages (`.pck`) and soundbanks (`.bnk`),
with contracts checked by Verus.

- `src/` — the verified library:
  - `pck/` — the package header, the language map (UTF-16 names), the
    look-up tables and the writer, with the law that a written package parses
    back to the writer's languages and entries. Big-endian packages (compact
    header, 24-byte LUT entries, UTF-16BE names) are detected from the
    version field and read too.
  - `bnk/` — the chunk walk of a soundbank, the bank header, embedded media
    (DIDX/DATA), the owned bank that rebuilds its media chunks, and the HIRC
    hierarchy (`hirc/`): a byte reader and writer, and every item and
    parameter block with its read and write contracts.
  - `hash.rs` — the FNV-1 name hash and FOURCC tags.
  - `listing.rs` — maps keyed by `u32` listed in key order, with a verified sort.
  - `commands.rs` — parsing of IDs given on the command line.
  - `dump.rs` — the extraction plan: which files a package or soundbank
    dump writes, under which language and directory.
- `app/` — the `pcktool` command-line program (`info`, `list`, `dump`): file
  mapping, printing, creating directories and writing the planned files.
- `tests/` — tests of the library on concrete values.
