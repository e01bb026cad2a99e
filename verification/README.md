# mp4_atom

Encoding and decoding of MP4 (ISO base media file format) atoms, verified with Verus.

- `src/` is the library. Every atom type has a mathematical value (its `View`), a
  specification of what decoding its bytes gives and of what encoding a value gives, and a
  proof that a value comes back from its own bytes (`Atom::lemma_body_roundtrip`,
  `atom::lemma_atom_roundtrip`). `codec`, `bits` and `text` hold the byte, bit and string
  encodings; `container` reads the children of container atoms; `reader` holds the
  decisions of a stream reader.
- `app/` reads atoms from and writes them to `std::io` and tokio streams, on top of the
  library.
- `tests/` holds the tests.
