//! What the viewer's panes show and what their controls do. Drawing is left to
//! the host.

pub mod cameras;
pub mod info;
pub mod laws;
pub mod log;
pub mod materials;
pub mod overlays;
pub mod ribbon;
pub mod rows;
pub mod selection;
pub mod timeline;
pub mod tree;
pub mod variants;
