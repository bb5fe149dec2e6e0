//! MaterialX-on-USD compilation, stage reading and viewer decisions for Bevy.

pub mod assoc;
pub mod completion;
pub mod float;
pub mod fspath;
pub mod hash;
pub mod incremental;
pub mod live;
pub mod live_laws;
pub mod material;
pub mod materialx;
pub mod path;
pub mod physics_data;
pub mod physics_laws;
pub mod read;
pub mod route;
pub mod stage;
pub mod text;
pub mod text_laws;
pub mod viewer;
