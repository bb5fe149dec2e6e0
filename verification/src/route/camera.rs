//! Camera route: which projection a camera prim gets. The route never makes a
//! camera active.

use crate::stage::{Pair, Scalar, Stage, Value};
use crate::text::str_eq;
use vstd::prelude::*;

verus! {

/// The 32-bit pattern of the default focal length, 50.
pub const FOCAL_LENGTH: u32 = 0x4248_0000;

/// The 32-bit pattern of the default vertical aperture, 15.2955.
pub const VERTICAL_APERTURE: u32 = 0x4174_ba5e;

/// The 32-bit pattern of the default near clip distance, 0.1.
pub const NEAR: u32 = 0x3dcc_cccd;

/// The 32-bit pattern of the default far clip distance, 1000000.
pub const FAR: u32 = 0x4974_2400;

/// The parameters of a projection. The vertical field of view of a perspective
/// projection is twice the angle whose tangent is the aperture over twice the
/// focal length.
#[derive(Debug, Clone, Copy, PartialEq, Eq, Structural)]
pub enum ProjectionPlan {
    /// The prim is no camera: the host's default.
    Unchanged,
    Orthographic { near: Scalar, far: Scalar },
    Perspective { aperture: Scalar, focal: Scalar, near: Scalar, far: Scalar },
}

/// A float, or the given default.
pub open spec fn float_or(value: Option<Value>, otherwise: u32) -> Scalar {
    match value {
        Some(Value::Float(v)) => Scalar::F32(v),
        _ => Scalar::F32(otherwise),
    }
}

/// The clip distances.
pub open spec fn clip_of(value: Option<Value>) -> Pair {
    match value {
        Some(Value::Vec2f(x, y)) => Pair { x: Scalar::F32(x), y: Scalar::F32(y) },
        Some(Value::Vec2d(x, y)) => Pair { x: Scalar::F64(x), y: Scalar::F64(y) },
        _ => Pair { x: Scalar::F32(NEAR), y: Scalar::F32(FAR) },
    }
}

/// The token asks for an orthographic projection.
pub open spec fn is_orthographic(value: Option<Value>) -> bool {
    value matches Some(Value::Token(t)) && t@ == "orthographic"@
}

/// The projection of a camera prim.
pub open spec fn projection_plan(stage: Stage, path: Seq<char>) -> ProjectionPlan {
    if stage.type_of(path) != Ok::<Option<Seq<char>>, Seq<char>>(Some("Camera"@)) {
        ProjectionPlan::Unchanged
    } else {
        let clip = clip_of(stage.value_of(path, "clippingRange"@));
        if is_orthographic(stage.value_of(path, "projection"@)) {
            ProjectionPlan::Orthographic { near: clip.x, far: clip.y }
        } else {
            ProjectionPlan::Perspective {
                aperture: float_or(stage.value_of(path, "verticalAperture"@), VERTICAL_APERTURE),
                focal: float_or(stage.value_of(path, "focalLength"@), FOCAL_LENGTH),
                near: clip.x,
                far: clip.y,
            }
        }
    }
}

fn float_at(stage: &Stage, path: &str, name: &str, otherwise: u32) -> (r: Scalar)
    ensures
        r == float_or(stage.value_of(path@, name@), otherwise),
{
    match stage.value(path, name) {
        Some(Value::Float(v)) => Scalar::F32(*v),
        _ => Scalar::F32(otherwise),
    }
}

/// The projection of a prim.
pub fn projection_of(stage: &Stage, path: &str) -> (r: ProjectionPlan)
    ensures
        r == projection_plan(*stage, path@),
{
    match stage.prim_type(path) {
        Ok(Some(t)) => if !str_eq(t.as_str(), "Camera") {
            return ProjectionPlan::Unchanged;
        },
        _ => return ProjectionPlan::Unchanged,
    }
    let clip = match stage.value(path, "clippingRange") {
        Some(Value::Vec2f(x, y)) => Pair { x: Scalar::F32(*x), y: Scalar::F32(*y) },
        Some(Value::Vec2d(x, y)) => Pair { x: Scalar::F64(*x), y: Scalar::F64(*y) },
        _ => Pair { x: Scalar::F32(NEAR), y: Scalar::F32(FAR) },
    };
    let orthographic = match stage.value(path, "projection") {
        Some(Value::Token(t)) => str_eq(t.as_str(), "orthographic"),
        _ => false,
    };
    if orthographic {
        ProjectionPlan::Orthographic { near: clip.x, far: clip.y }
    } else {
        ProjectionPlan::Perspective {
            aperture: float_at(stage, path, "verticalAperture", VERTICAL_APERTURE),
            focal: float_at(stage, path, "focalLength", FOCAL_LENGTH),
            near: clip.x,
            far: clip.y,
        }
    }
}

} // verus!
