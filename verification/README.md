# jcard

RFC 7095 jCard (the JSON form of vCard) with a reader for RFC 6351 xCard
(the XML form), verified with Verus.

- `src/` is the verified library. `json.rs` holds the JSON tree the library
  reads and writes, and reads it from text with `serde_json`;
  `deserialize.rs` reads a jCard leniently from JSON text or such a tree,
  with a warning for every malformed part; `serialize.rs` writes one
  and proves that reading it back gives the same card; `property.rs` and
  `parameters.rs` hold the property model; `text.rs` the text helpers;
  `xcard/` reads xCard documents from `quick_xml` events.
- `app/` connects the trees to `serde_json::Value` and carries
  `Serialize`, `Deserialize`, `Display` and `FromStr`.
- `tests/` runs the library on concrete documents.
