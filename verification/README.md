# map_editor

The data model and mesh bookkeeping of a small brush-based level editor,
written in Verus.

## Layout

- `src/` — the verified library.
  - `types`: small value types (`Vec2`, `Vec3`, `Colour`).
  - `ids`: random (version 4) UUIDs, held as `u128`.
  - `brush`, `layer`, `group`, `entity`, `document`: the map document and its
    parts; entity properties are a string map kept as a list of pairs without
    repeated keys.
  - `geometry`: enumeration of plane triples, fan triangulation and assembly
    of a brush's ordered faces into one indexed triangle list, with proofs
    that every index names a vertex and that inverting a brush only flips the
    winding.
  - `terrain`: the index list of a square height-field grid.
  - `tools`, `editor`: tool kinds and the document a session starts with.
- `tests/` — tests of the library.
- `app/` — the egui editor window, camera, picking rays, noise terrain,
  brush corner finding and the serialisable (serde) form of the document.

## Numbers

The verified library does no floating-point arithmetic. Every `f32` of the
map format (coordinates, colours, intensities, texture placement) is carried
through it as its IEEE-754 bit pattern (`f32::to_bits`); the application
converts at the edges, where the geometry that needs real arithmetic lives.
