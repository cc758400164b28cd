# macho

Access to Mach-O files, verified with Verus: single objects and fat containers, their identifiers
and architectures, their function symbols and their sections with debug information.

The bytes of the format are read by [`goblin`]. The library states what each of its results has to
do with the bytes of the file, and the proofs go from the readings of `goblin` to these statements.

## Layout

- `src/layout.rs` describes the format over the bytes of a file, `src/image.rs` says what an image
  is on that ground: its load address, its code sections, its symbols and its named sections.
- `src/object.rs`, `src/symbols.rs` and `src/symbol_map.rs` are about one object, `src/fat.rs` and
  `src/archive.rs` about files with several. `src/base.rs` and `src/ident.rs` hold the values that
  they give.
- `src/laws.rs` states what holds of all of them together.
- `src/reader.rs` and `src/indices.rs` call `goblin` and `smallvec`. What they say of these crates
  is not proved.
- `src/entry.rs` tells the files apart for which `goblin` would overflow.
- `app/` gives the types the traits of std and of `failure`.

[`goblin`]: https://crates.io/crates/goblin
