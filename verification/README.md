# tds_codepage

Verified decoding and encoding of character column values in the TDS wire
protocol (SQL Server), with the collation's code page chosen from its sort ID
or locale.

- `src/codepage.rs`: the OEM code pages 437 and 850, mapped byte by byte in
  this crate, and the ANSI code pages that `encoding_rs` converts.
- `src/collation.rs`: collations and the code page each one selects.
- `src/utf16.rs`: UTF-16LE decoding (strict or lossy) and encoding.
- `src/wire.rs`: little-endian integers and the frames of variable-length
  values (length-prefixed, TEXT, PLP).
- `src/column.rs`: column metadata, the reader, and decoding/encoding of
  values, each with a model that its contract states.
- `src/laws.rs`: properties across functions (round trips, lossy reading,
  framing).
- `app/lib.rs`: an adapter that feeds the decoder from an async stream.
