# diomedes

The decision-making core of a small Vulkan rigid-body engine that solves
contacts and joints with Augmented Vertex Block Descent on the GPU, written
in Verus with every function's contract proved.

- `src/` is the verified library: contact lists and warm starting for the
  block solver (`contacts`, `avbd`), the broad phase's pair enumeration
  (`broadphase`), the narrow phase's dispatch and contact decoding
  (`narrowphase`), the GJK simplex and the EPA face table (`gjk`, `epa`),
  scene, draw batching and interned geometry (`scene`, `batch`, `library`,
  `mesh`), device, swapchain and uniform choices (`vulkan`), UI buffer
  packing (`ui`), held keys (`input`) and SPIR-V decoding (`shader`).
  Laws that span several functions are public proof functions named
  `law_*`.
- `app/` is ordinary Rust around it: Vulkan and winit calls, OBJ loading,
  and the floating-point geometry (support functions, GJK/EPA distances,
  matrices), each handing plain values to the library.
- `tests/` runs the library on concrete values.
