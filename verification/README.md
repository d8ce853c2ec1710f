# wg_element

The elements of the game's network protocol bundles, verified with Verus.

- `src/codec.rs`: little-endian integers as byte sequences, a reader over a
  byte buffer and the writers that append to a byte vector.
- `src/element.rs`: the `Element`, `SimpleElement` and `EmptyElement` traits,
  the kinds of length prefix (`ElementLength`), replies and the debug
  elements; `src/element/id_range.rs`: element id ranges and exposed ids;
  `src/element/client.rs`: the elements the server sends to the client.
- `app/lib.rs`: the glam-vector forms of the elements that carry floats and
  the debug formatting of the debug elements.

Every element states the bytes it writes and what it reads back, and proves
that decoding what it encoded gives it back.
