# nix_wire_script

A verified library for `.nwscript` files, the human-readable text form of
Nix daemon protocol sessions: parsing them, formatting them, serializing
their operations to daemon wire bytes, checking `expect` assertions against
daemon responses, and summarising recorded sessions.

The library in `src/` is written in Verus. Each public function states in
its contract what it returns, over spec functions on `Seq`, `Map` and the
views of the script types; Verus proves the code against those contracts.

## Layout

- `src/script.rs` – the script types (`Script`, `Entry`, `OpCall`, `Expect`,
  ...) and their views.
- `src/protocol.rs` – operations, protocol versions, stderr codes, handshake
  information and the wire encoding of integers, strings and framed data.
- `src/parse.rs`, `src/op_args.rs` – the parser, specified line by line.
- `src/format.rs` – the formatter, and the data files a script refers to.
- `src/serialize.rs` – wire bytes of the client handshake and of operations.
- `src/expect.rs` – evaluation of `expect` assertions (regular expressions
  through the `regex` crate).
- `src/decompile.rs`, `src/stats.rs` – building scripts and statistics from
  recorded sessions.
- `src/num.rs`, `src/text.rs` – decimal and hex text, string helpers.
- `src/roundtrip.rs`, `src/notes.rs`, `src/readback.rs` – proofs that what the
  formatter writes reads back: values one by one, then whole scripts
  (`law_format_parse_roundtrip`).
- `tests/` – tests run against the compiled library.
- `app/` – file-system and reporting code around the library.
