# kay_codegen

Code generation for actors and actor traits. The generator reads the Rust
source of a module (`mod.rs`), finds

- its actors: types with message handlers (public methods, or methods of a
  trait implementation, whose last argument is `&mut World`) or with actor
  trait implementations,
- its actor traits: traits with message handlers,

and writes the code that gives each actor and trait an ID type, methods that
send its messages, the message types, and an `auto_setup` function that
registers everything with the actor system. `generate_serializable` also
derives serde's `Serialize` and `Deserialize` on the ID types.

## Layout

- `src/` is the verified library.
  - `syntax` holds the parts of a source file that the generator reads, as
    plain values, and the call into `syn` that parses a file.
  - `parsers` builds the model (`model`) of a module; `index_map` gives the
    insertion-ordered maps of the model their contracts.
  - `generators`, `trait_code` and `actor_code` produce the code, from the
    templates in `templates`, with the text functions of `text`.
  - `modules` decides, for one module file, where its code goes, whether it
    is due and what is written, and models a scan of a source tree over a
    map of files.
  - `laws` states and proves properties that hold for every input.
- `tests/` runs the library on whole modules and on small inputs.
- `app/` scans a source tree with `glob` and reads and writes the files.
