# antigen

The verified core of the antigen engine, written in Verus.

- `src/` — the library. Its functions are verified, except four small wrappers
  around outside calls (nom's number reader, the `svg` parser, and bytemuck's
  byte views of `u32`s) and one std call, whose contracts are trusted:
  - `lazy_component`, `changed`, `usage`, `peano`, `traits`, `components`, `fs`,
    `window`, `physics`, `map_file`, `gpu`: the component types of the engine and
    the nested-newtype construction traits.
  - `expression/`: the expression language — tokenizer (number literals are read
    with `nom`), tree construction, a table of variables and checked integer
    evaluation.
  - `text`: decimal reading and writing.
  - `render_pass`: the order in which render passes are drawn, and where a
    frame's drawing stops.
  - `phosphor/`: the phosphor demo — map entity properties and what they make
    of an entity (colliders, shared shapes, rigid bodies, movers, event relays,
    mesh instances, text glyphs), face and line culling, brush entity mesh
    indices, index lists for line and triangle meshes, the layout of mesh data
    in its GPU buffers, SVG path reading and SVG glyph layers.
- `tests/` — tests of the library.
- `app/` — a command-line front end, and what holds floats or talks to the ECS:
  float evaluation of expressions, reading SVG files, vertex layouts, entity
  bookkeeping.
