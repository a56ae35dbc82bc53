# move_binding

Bindings for Move packages on Sui: the normalized model of an on-chain package, the
reader that builds it from the replies of a GraphQL service, and the Rust spelling of
the types it mentions.

- `src/` is the library, verified with Verus.
  - `normalized` holds the model of a package and reads it from JSON nodes; `encoding`
    states the JSON form of types and that the reader inverts it.
  - `request` writes the queries, `package_provider` decides what to ask next and what to
    make of each reply. `service` states what a whole fetch yields from a service that
    answers every request alike, `replies` what it yields from any replies, and `contents`
    what the package then holds.
  - `types` spells Move types in Rust.
  - `json`, `address`, `name_map`, `text`, `error` and `model` are what these are built
    from.
- `app/` sends the requests over HTTP and converts JSON values.
- `tests/` runs the library on concrete values.

Addresses are parsed and printed by `sui-sdk-types`, and texts are joined by
`itertools`; the contracts of these calls are believed, all others are proved.
