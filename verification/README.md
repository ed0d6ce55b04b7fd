# kirie

The logic of a scene wallpaper, verified with Verus.

- `src/` is the library. It reads scene documents, resolves their user
  properties, plans and wires the passes of every layer, mends and checks their
  shaders, lays out and packs uniforms, and keeps the state that scripts and
  animations change while a scene is shown. Every function states what it
  returns or changes, and Verus proves it. The proof functions whose names begin
  with `law_` state what holds across functions.
- `tests/` runs the library, with the outside crates linked.
- `app/` is ordinary Rust around the library: files, clocks, floating-point
  geometry, fonts, and the graphics card. It does what the library decides.

Numbers that only reach the graphics card are not computed with in `src/`. They
are carried as they were written (`value::Scalar`) or as the bits of
floating-point numbers, and `app/numbers.rs` reads them.

The outside crates that the library calls stand behind a few declared wrappers:
`serde_json` and `bytemuck` in `json.rs`, `naga` in `modules.rs`, and `blake3` in
`keys.rs`. Each says in its comment what is taken on trust.
