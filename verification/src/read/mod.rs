//! Typed readers: the sampled stage decoded into the records that projections
//! consume.

pub mod anim;
pub mod camera;
pub mod clips;
pub mod geom;
pub mod laws;
pub mod lux;
pub mod media;
pub mod mesh_laws;
pub mod proc;
pub mod render;
pub mod rig_laws;
pub mod shade;
pub mod shade_laws;
pub mod skel;
pub mod skel_anim_text;
pub mod ui;
pub mod util;
