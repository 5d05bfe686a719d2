# new-executable

A parser for the NE ("New Executable") format of 16-bit Windows and OS/2
programs, verified with Verus.

- `src/` is the library. Its functions are verified: their `requires` and
  `ensures` state what they read, what they return and on which inputs
  they fail, over mathematical models of the file bytes (`Seq<u8>`). The
  only exceptions are five small trusted wrappers around outside calls,
  whose contracts are believed: `core::str::from_utf8`, `str::to_lowercase`
  and the `digest` calls of the `md-5`, `sha1` and `sha2` crates. Nothing
  assumes a word size: offsets that could overflow a 32-bit `usize` are
  either checked or stated as conditions.
  - `codec` — little-endian fields of byte sequences.
  - `headers` — the NE header, its flag words and the segment records.
  - `ne` — the `Buffer` and `NE` traits and the two buffers (`VecNE`,
    `PtrNE`): header validation, the segment table, address translation.
  - `types` — the tables: names, module references, imported names, the
    entry table, resources and relocations (with their fixup chains).
  - `error`, `text`, `describe` — error messages and the textual
    descriptions that the inspection tools print.
  - `report`, `imports`, `dump`, `documents` — the reports, block by
    block and whole (detailed, JSON and winedump-style; the imports table,
    ordered by lowercased module name; the relocation dump), each stated as
    a text over the file bytes.
  - `hash` — MD5, SHA-1 and SHA-256 digests (through the `md-5`, `sha1` and
    `sha2` crates) and byte counts.
  The public proof functions state properties of the library as a whole
  (reading back a written header, the shape of a fixup chain, where the
  relocations come from, and so on).
- `tests/` runs the library on synthetic images.
- `app/` holds the command-line tools: `ne-inspect` (detailed, JSON and
  winedump-style reports) and `dump_relocs`. They read the files, check
  the conditions the library asks of its callers, and print its texts.
