# ledge_engine

The core of a small game engine, verified with Verus.

- `src/ecs`: a two-layer bitset for joining component storages
  (`layeredbitmap`; `layer1` marks exactly the groups of four indices that
  have a member), the bitset kept with each storage, component storage and
  its join (`storage`), entity ids (`entity`), join iteration (`join`).
- `src/scene`, `src/game`: scene stacks, levels and the game state.
- `src/graphics`: sprite-sheet frame arithmetic, text layout, font cells, the
  document tree, blend settings per blend mode, the choice of rendering
  device, sprite batches, and PNG decoding through the `png` crate.
- `src/input`: keyboard state; mouse buttons and cursors.
- `src/animation`, `src/physics/movement`, `src/event`: the decisions of
  animation state machines, player movement and the game loop.

The words of the layered bitset are `u64`, so its layout is that of a 64-bit
target on every target.

`app/` holds what the verified library leaves out: winit event plumbing,
floating-point physics, animation timing, camera and transform math. There
is no GPU back end: the Vulkan renderer needs `vulkano`, which is not among
the crates here.
