//! What prims of a stage become in a scene.

pub mod cache;
pub mod camera;
pub mod coverage;
pub mod geom;
pub mod instancer;
pub mod laws;
pub mod material;
pub mod shapes;
pub mod signature;
