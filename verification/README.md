# datalink

A library for querying data through a uniform interface: any type that implements
`Data` provides its values (integers, text, bytes, identifiers) and its links (a target
with an optional key) to a visitor, and everything else is built on that.

The library is written in Verus; each public function carries a contract over a
mathematical model of the data and is proved against it.

Layout of `src/`:

- `data/` — the `Data` and `Visitor` traits, the model of provided values, the
  implementations for standard types, reading data back as plain values (`ext`),
  formatting (`format`), unique data (`unique`), JSON values and kernel configuration
  values.
- `links/`, `link/`, `link_builder.rs` — collections that take links, single links and
  link builders.
- `query/` — type filters, receivers and the data/link selectors with their optimizer.
- `rr/`, `meta.rs`, `type_key.rs` — sets of types, marker types and type identifiers.
- `id.rs`, `text.rs` — identifiers and decimal text.
- `attrs.rs`, `data_impl.rs` — the rules of the `Data` derive: field attributes and what
  the derived queries do for each field and variant.
- `adapter.rs` — data seen through an adapter.

`app/` holds what needs outside traits: error types with `Display`, JSON conversion from
`serde_json`, and `Display` for formatted data.
