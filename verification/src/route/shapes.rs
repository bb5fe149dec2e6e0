//! Shapes route: which primitive mesh a USD shape prim gets.
//!
//! Cylinders, cones, capsules and planes carry an axis, Z by default: the one
//! that they stand along, or for a plane the one that it faces.

use crate::stage::{Scalar, Stage, Value};
use crate::text::str_eq;
use vstd::prelude::*;

verus! {

/// The axis that a shape stands along, or that a plane faces.
#[derive(Debug, Clone, Copy, PartialEq, Eq, Structural)]
pub enum Axis {
    X,
    Y,
    Z,
}

/// A primitive shape with its measures.
#[derive(Debug, Clone, Copy, PartialEq, Eq, Structural)]
pub enum ShapePlan {
    Cube { size: Scalar },
    Sphere { radius: Scalar },
    Cylinder { radius: Scalar, height: Scalar, axis: Axis },
    Capsule { radius: Scalar, height: Scalar, axis: Axis },
    Cone { radius: Scalar, height: Scalar, axis: Axis },
    Plane { width: Scalar, length: Scalar, axis: Axis },
}

/// The 32-bit pattern of 0.5.
pub const HALF: u32 = 0x3f00_0000;

/// The 32-bit pattern of 1.
pub const ONE: u32 = 0x3f80_0000;

/// The 32-bit pattern of 2.
pub const TWO: u32 = 0x4000_0000;

/// A double or float, or the given default.
pub open spec fn measure_of(value: Option<Value>, otherwise: u32) -> Scalar {
    match value {
        Some(Value::Double(v)) => Scalar::F64(v),
        Some(Value::Float(v)) => Scalar::F32(v),
        _ => Scalar::F32(otherwise),
    }
}

/// The axis that a token names: Z without one, and Y for any other token.
pub open spec fn axis_of(value: Option<Value>) -> Axis {
    match value {
        Some(Value::Token(t)) => if t@ == "X"@ {
            Axis::X
        } else if t@ == "Z"@ {
            Axis::Z
        } else {
            Axis::Y
        },
        _ => Axis::Z,
    }
}

/// The shape of a prim of the given type.
pub open spec fn shape_of(stage: Stage, path: Seq<char>, prim_type: Option<Seq<char>>) -> Option<
    ShapePlan,
> {
    let radius = |otherwise: u32| measure_of(stage.value_of(path, "radius"@), otherwise);
    let height = |otherwise: u32| measure_of(stage.value_of(path, "height"@), otherwise);
    let axis = axis_of(stage.value_of(path, "axis"@));
    if prim_type == Some("Cube"@) {
        Some(ShapePlan::Cube { size: measure_of(stage.value_of(path, "size"@), TWO) })
    } else if prim_type == Some("Sphere"@) {
        Some(ShapePlan::Sphere { radius: radius(ONE) })
    } else if prim_type == Some("Cylinder"@) {
        Some(ShapePlan::Cylinder { radius: radius(ONE), height: height(TWO), axis })
    } else if prim_type == Some("Capsule"@) {
        Some(ShapePlan::Capsule { radius: radius(HALF), height: height(ONE), axis })
    } else if prim_type == Some("Cone"@) {
        Some(ShapePlan::Cone { radius: radius(ONE), height: height(TWO), axis })
    } else if prim_type == Some("Plane"@) {
        Some(
            ShapePlan::Plane {
                width: measure_of(stage.value_of(path, "width"@), ONE),
                length: measure_of(stage.value_of(path, "length"@), ONE),
                axis,
            },
        )
    } else {
        None
    }
}

fn measure_at(stage: &Stage, path: &str, name: &str, otherwise: u32) -> (r: Scalar)
    ensures
        r == measure_of(stage.value_of(path@, name@), otherwise),
{
    match stage.value(path, name) {
        Some(Value::Double(v)) => Scalar::F64(*v),
        Some(Value::Float(v)) => Scalar::F32(*v),
        _ => Scalar::F32(otherwise),
    }
}

fn axis_at(stage: &Stage, path: &str) -> (r: Axis)
    ensures
        r == axis_of(stage.value_of(path@, "axis"@)),
{
    match stage.value(path, "axis") {
        Some(Value::Token(t)) => if str_eq(t.as_str(), "X") {
            Axis::X
        } else if str_eq(t.as_str(), "Z") {
            Axis::Z
        } else {
            Axis::Y
        },
        _ => Axis::Z,
    }
}

/// The shape of a prim; `None` for a prim that is no shape.
pub fn shape_mesh(stage: &Stage, path: &str) -> (r: Option<ShapePlan>)
    ensures
        r == (match stage.type_of(path@) {
            Ok(t) => shape_of(*stage, path@, t),
            Err(_) => None,
        }),
{
    let kind = match stage.prim_type(path) {
        Ok(Some(t)) => t,
        _ => return None,
    };
    let name = kind.as_str();
    if str_eq(name, "Cube") {
        Some(ShapePlan::Cube { size: measure_at(stage, path, "size", TWO) })
    } else if str_eq(name, "Sphere") {
        Some(ShapePlan::Sphere { radius: measure_at(stage, path, "radius", ONE) })
    } else if str_eq(name, "Cylinder") {
        Some(
            ShapePlan::Cylinder {
                radius: measure_at(stage, path, "radius", ONE),
                height: measure_at(stage, path, "height", TWO),
                axis: axis_at(stage, path),
            },
        )
    } else if str_eq(name, "Capsule") {
        Some(
            ShapePlan::Capsule {
                radius: measure_at(stage, path, "radius", HALF),
                height: measure_at(stage, path, "height", ONE),
                axis: axis_at(stage, path),
            },
        )
    } else if str_eq(name, "Cone") {
        Some(
            ShapePlan::Cone {
                radius: measure_at(stage, path, "radius", ONE),
                height: measure_at(stage, path, "height", TWO),
                axis: axis_at(stage, path),
            },
        )
    } else if str_eq(name, "Plane") {
        Some(
            ShapePlan::Plane {
                width: measure_at(stage, path, "width", ONE),
                length: measure_at(stage, path, "length", ONE),
                axis: axis_at(stage, path),
            },
        )
    } else {
        None
    }
}

} // verus!
