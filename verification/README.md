# golem_rust

Verified building blocks of the Golem Rust SDK.

- `wit` — the WIT export model (records, variants, enums, flags, functions and
  the type references inside them) and the serializer that writes it as WIT
  text. The text of every export is stated character by character.
- `wit_gen` — the WIT file written for a module annotated with
  `create_wit_file`, over a model of the module's Rust syntax (`syntax`).
- `wit_file` — the name of that file, taken from the attribute.
- `golem` — the code the `golem` attribute emits for structs, enums and
  functions: `HasWitMetadata` impls and registry entries, as source text.
- `macroutils` — the `HasWitMetadata` trait and its metadata model.
- `durability` — guards that scope the persistence level, the idempotence mode
  and atomic operations.
- `transaction::compfn` — calling compensation functions with an operation's
  result and its inputs (none to six).
- `example`, `trial` — the sample components' types and functions.

`app/` holds what the verifier does not see: conversion from `syn` syntax
trees, parsing generated source back into tokens, file output, the link-time
registry of exports, and the host calls behind the durability guards.
