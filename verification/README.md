# cuttle

The verified core of a 2D signed-distance-field renderer.

- `src/` is the library, checked by Verus: bit flags and their iterator,
  index arenas, component index packing, the assembly of WGSL shader source
  (line splitting, indentation, structs, calculations, component dispatch),
  storage-buffer layout, binding registries, component ordering, and the
  batching of sorted render items.
- `tests/` runs the library on concrete values.
- `app/` connects the library to Bevy: components, plugins, asset loading
  and the render-world systems, which hand plain values to the library and
  apply what it returns.
