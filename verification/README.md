# bdk_labels

A library for annotating Bitcoin data — transactions, addresses, public keys,
inputs, outputs and xpubs — with descriptions and hierarchical tags, carried in
the `label` field of BIP329 records as `description ; tag1 tag2:value tag3:a:b`.
Its functions are verified with Verus against contracts over mathematical models.

Layout:

- `src/text.rs` — whitespace, trimming, words, joining, the ` ; ` separator.
- `src/tag.rs` — tags and their tokens (`kyc:`, `project:income`).
- `src/label.rs` — the label format: parsing, writing, and its round trip.
- `src/annotation.rs` — annotations and record types.
- `src/convert.rs` — annotations to and from `bip329` labels, reference checks
  with `bitcoin`'s parsers.
- `src/db.rs` — the SQL statements of the label store and the reading of rows.
- `src/cli.rs`, `src/commands.rs` — the command line as plain values and the
  decisions of each command.
- `app/` — the `bdk-label` program: argument parsing, the SQLite store, files
  and standard input and output.
