# render

The verified core of a small Vulkan-style renderer.

- `src/gfx/memory_page.rs` — the allocations inside one page of device memory: sorted,
  disjoint byte ranges placed first-fit; freeing an allocation undoes placing it.
- `src/gfx/heapy.rs` — Heapy, the device-memory bookkeeping: pages per memory type, sizes
  rounded to the device alignment, the first page with room takes a request, otherwise a new
  page is opened. `src/gfx/arena.rs` states what the `generational_arena` operations that hold
  the pages do.
- `src/resource/` — buffer, pipeline, render-pass and descriptor descriptions; descriptor
  writes ("glue") and per-frame uniform buffers.
- `src/graph.rs` — the builder of render-graph pass nodes.
- `src/tasks.rs` — how many threads the task pools start.

`app/` holds what talks to the GPU through gfx-hal (device memory, buffers, conversions to
gfx-hal's types), the thread pools, and the types that carry floating-point values.
