# rson_rs

Data written as Rust: a serializer that writes values as Rust expressions and
`let` statements (reusing variables where the caller names them), and a
deserializer that reads such statements back, following variables, field
accesses, struct update syntax (`..base`) and `map!` macros.

## Layout

- `src/` is the library, verified with Verus.
  - `text.rs`: decimal text of integers and how the standard library reads it back.
  - `ser.rs`, `ser/`: the serializer over a `Value` of the serde data model, its
    formatters (compact and pretty) and the variable table.
  - `de.rs`, `de/`: reading a document's text into statements with `syn`
    (`de/syntax.rs`), the document model (statements and expressions), the parser
    that records variables and the returned expression, resolution of variables
    and fields, and the accessors that hand out elements, entries and fields.
  - `legacy.rs`, `legacy/`: the format's first serializer (its deserializer,
    which rested on a text scanner outside this project, is not here).
- `tests/`: tests of the library on concrete values.
- `app/`: the serde front end: `Serialize` values into `Value`, `Deserialize`
  values out of the deserializer, and the
  error types with their `Display` implementations.
