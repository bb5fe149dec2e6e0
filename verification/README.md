# usd_bevy

The decisions of a live OpenUSD viewer on Bevy, verified with Verus.

A composed USD stage is copied into plain values (`stage`). On these the library

- compiles MaterialX surface graphs to WESL sources with their uniforms and
  textures, and reports every problem as a diagnostic (`materialx`);
- reads meshes, preview surfaces, cameras, lights, skeletons, animation, render
  settings, physics and point instancers (`read`, `physics_data`, `route`);
- decides what each prim is projected to, which meshes and materials share a
  handle, and which background conversions are published (`route`,
  `completion`);
- keeps the index of prims and entities in step with the stage (`live`,
  `incremental`);
- decides what the viewer's panes show and what a click changes (`viewer`).

Floating-point numbers are carried as their bits; numbers are computed only by
the application in `app/`, which opens stages and files, talks to Bevy and draws
the window. The calls into `openusd`, `bevy` and std that the library does not
prove are in `path`, `hash`, `text`, `materialx::external` and
`materialx::material`; each says above it what is taken for granted.

- `src/` the verified library
- `tests/` tests on concrete values
- `app/` the viewer around it
