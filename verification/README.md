# gui_gpu

A viewer that runs a sequence of compute passes on the GPU every frame
(pixel coordinates to complex numbers, a complex function, polar form,
color) and paints the resulting color buffer with egui.

- `src/` is the verified library. `gui_gpu::value` holds the WGSL value
  types and their sizes and alignments; `gui_gpu` the pass, buffer and
  sequence descriptors; `gui_gpu::plan` turns descriptors into the bind
  group layouts, bind groups, buffer sizes and initial uniform values of
  the GPU objects; `gui_gpu::frame` builds the per-frame uniform bytes and
  workgroup counts; `gui_gpu::demo` builds the viewer's own sequence;
  `gui::DirtyBit` is the reload flag.
- `app/` makes the wgpu objects that the plans describe, reads the shader
  files and runs the eframe window.
- `tests/` exercises the library on concrete values.
