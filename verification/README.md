# micro3d

A lightweight 3D simulation library with an entity component system, whose
logic is verified with Verus.

- `src/` is the verified library:
  - `ecs`: the world of entities and components (`World`, `EntityBuilder`,
    `Component`), with its abstract state `WorldView` and the laws that relate
    its operations;
  - `time`: spans of time (`Duration`), frame timing (`TimeState`) and timers
    (`Timer`);
  - `input`: keyboard and mouse button state (`InputState`) and the usual
    queries on it (`input::utils`);
  - `events`: how the application answers window events, render errors and
    the start of a frame;
  - `graphics`: which pipeline draws a mesh, how meshes are grouped by
    pipeline for a frame, and how a grid's lines index its vertices.
- `app/` is the program around it: the window and event loop (winit), the
  renderer (wgpu), the orbital camera and the math components, which are
  floating-point and so stay outside the verified library, and a demo that
  draws a ground grid.
- `tests/` exercises the library on concrete values.

Controls of the demo: drag with the left mouse button to rotate the camera,
turn the wheel to zoom, press `Escape` or `Ctrl+C` to exit.
