# engine_render

Frame planning for a GPU-driven renderer, verified with Verus.

`src/` is the library. It decides what a frame does and proves what it decides:

- `frame_handoff`, `dirty`, `transform_gpu`: which transforms changed, and how
  they travel from the simulation to the GPU-visible staging.
- `assets`, `gpu_renderers`, `gpu_parents`, `components`: where meshes, textures,
  materials and per-entity records land, and when an id may point at them.
- `camera`, `draw`, `hiz`, `overlay`, `frame_slot`: what a camera culls and
  draws, and the commands of a frame in order.
- `swapchain`, `render_thread`, `stats`, `settings`: one frame put together, and
  its measurements.
- `input`, `scene`, `gizmo`, `capture`, `debug_input`: what the pointer, the
  keyboard and the debug channel do.
- `export`, `scripts`, `gpu_telemetry`, `text`: property derivation, script
  libraries, driver files, and the text handling under them.

`app/` carries the decisions out: Vulkan, the window, sockets, files, and the
floating-point maths. `tests/` runs the library on concrete values.

Single-precision numbers are bit patterns in the library; `order` compares them.
