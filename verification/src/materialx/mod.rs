//! MaterialX graph compilation and its Bevy WESL form.
//!
//! The compiler targets a renderer adapter for MaterialX Standard Surface
//! through Bevy PBR. It supports MaterialX and universal surface terminals,
//! Standard Surface base and base colour, metalness, specular roughness,
//! emission, opacity and normal, translated constants and arithmetic, and image
//! sampling on UV0. Unknown or invalid graphs receive structured diagnostics.
//! The limits are 64 uniform values and four images per material.

pub mod asset;
pub mod compiler;
pub mod diagnostic;
pub mod emit;
pub mod emit_laws;
pub mod external;
pub mod external_laws;
pub mod graph;
pub mod laws;
pub mod material;
pub mod node_laws;
pub mod registry;
pub mod surface_laws;
pub mod terminals;
pub mod value;
pub mod value_laws;
