# nova

Reflection values and types, schemas that validate them, and the decisions of the
`fs` and `http` namespaces and of the steps of a routine.

- `src/` is the verified library: reflected types (`types`), numbers and texts,
  values and their ordered maps (`value`), borrowed dynamic values (`dynamic`),
  metadata, fields and items, conversion of Rust values into reflected values
  (`to_value`, `try_from`), JSON documents (`json`), template values (`template`),
  the reading of field attributes (`parse`), the arguments and responses of the
  `fs` and `http` namespaces (`fs`, `http`), the guard and argument decisions of a
  step (`step`), and the schemas with their validation errors (`schema`).
- `app/` connects the library to `serde_json`, `serde`, `minijinja` and `reqwest`,
  reads and writes files, and holds the number schema, whose bounds are floats.
- `tests/` exercises the library.

What is not here, and why:

- The workflow runtime (manifests, scopes, routines, the observer thread) and the
  scope and diagnostic macros are built on a core crate whose source is not part of
  this project; only the decisions of a step that need nothing of it stand in `step`.
- The derive and attribute macros generate token streams with `quote`/`syn`; what
  they generate cannot be parted from those macros. Only the reading of a field's
  attributes stands in `parse`.
- An owned value holds dynamic sequences only. Verus does not accept a trait object
  (`Arc<dyn Object>`) inside the recursive `Value` type, so objects, callables and
  bound values exist here only borrowed, as `DynamicRef`.
- Floats are held as their bits; what needs float arithmetic or float text (the
  number schema, conversion to `f32`/`f64`, the text of a float) stands in `app/`.
