//! Planning layer of a GPU compute-pass viewer: value layouts, pass and
//! buffer descriptors, and the bind-group, buffer and uniform data that the
//! render loop hands to the GPU.

pub mod gui;
pub mod gui_gpu;
