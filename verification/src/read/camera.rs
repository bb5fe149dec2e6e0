//! UsdGeom.Camera reader: raw camera values in millimetres and scene units.

use super::util::{
    as_number, as_pair, as_text, first_error, first_problem, has_type, number_at, pair_at,
    probe_views, text_at,
};
use crate::stage::{Scalar, Stage};
use crate::text::str_eq;
use vstd::prelude::*;

verus! {

/// Decoded `UsdGeom.Camera`. `None` fields use USD defaults.
#[derive(Debug, Clone, Copy, PartialEq, Eq, Structural)]
pub struct ReadCamera {
    pub focal_length_mm: Option<Scalar>,
    pub h_aperture_mm: Option<Scalar>,
    pub v_aperture_mm: Option<Scalar>,
    pub clip_near: Option<Scalar>,
    pub clip_far: Option<Scalar>,
    pub projection: Option<Projection>,
    pub focus_distance: Option<Scalar>,
    pub f_stop: Option<Scalar>,
}

#[derive(Debug, Clone, Copy, PartialEq, Eq, Structural)]
pub enum Projection {
    Perspective,
    Orthographic,
}

pub fn is_camera_type(prim_type: &str) -> (r: bool)
    ensures
        r == (prim_type@ == "Camera"@),
{
    str_eq(prim_type, "Camera")
}

/// The projection that a token names.
pub open spec fn projection_of(token: Option<Seq<char>>) -> Option<Projection> {
    if token == Some("perspective"@) {
        Some(Projection::Perspective)
    } else if token == Some("orthographic"@) {
        Some(Projection::Orthographic)
    } else {
        None
    }
}

/// The properties of a camera, in the order they are read.
pub open spec fn camera_properties() -> Seq<(bool, Seq<char>)> {
    seq![
        (false, "clippingRange"@),
        (false, "focalLength"@),
        (false, "horizontalAperture"@),
        (false, "verticalAperture"@),
        (false, "projection"@),
        (false, "focusDistance"@),
        (false, "fStop"@),
    ]
}

/// What the properties of a camera prim decode to.
pub open spec fn camera_at(stage: Stage, prim: Seq<char>) -> ReadCamera {
    let clip = as_pair(stage.value_of(prim, "clippingRange"@));
    ReadCamera {
        focal_length_mm: as_number(stage.value_of(prim, "focalLength"@)),
        h_aperture_mm: as_number(stage.value_of(prim, "horizontalAperture"@)),
        v_aperture_mm: as_number(stage.value_of(prim, "verticalAperture"@)),
        clip_near: match clip {
            Some(c) => Some(c.x),
            None => None,
        },
        clip_far: match clip {
            Some(c) => Some(c.y),
            None => None,
        },
        projection: projection_of(as_text(stage.value_of(prim, "projection"@))),
        focus_distance: as_number(stage.value_of(prim, "focusDistance"@)),
        f_stop: as_number(stage.value_of(prim, "fStop"@)),
    }
}

fn read_projection(stage: &Stage, prim: &str) -> (r: Option<Projection>)
    ensures
        r == projection_of(as_text(stage.value_of(prim@, "projection"@))),
{
    match text_at(stage, prim, "projection") {
        Some(token) => if str_eq(token.as_str(), "perspective") {
            Some(Projection::Perspective)
        } else if str_eq(token.as_str(), "orthographic") {
            Some(Projection::Orthographic)
        } else {
            None
        },
        None => None,
    }
}

/// The camera at `prim`; `None` for a prim of another type.
pub fn read_camera(stage: &Stage, prim: &str) -> (r: Result<Option<ReadCamera>, String>)
    ensures
        match stage.type_of(prim@) {
            Err(e) => r matches Err(text) && text@ == e,
            Ok(kind) => if kind != Some("Camera"@) {
                r == Ok::<Option<ReadCamera>, String>(None)
            } else {
                match first_problem(*stage, prim@, camera_properties()) {
                    Some(e) => r matches Err(text) && text@ == e,
                    None => r == Ok::<Option<ReadCamera>, String>(Some(camera_at(*stage, prim@))),
                }
            },
        },
{
    match has_type(stage, prim, "Camera") {
        Err(e) => return Err(e),
        Ok(false) => return Ok(None),
        Ok(true) => {},
    }
    let properties = vec![
        (false, "clippingRange"),
        (false, "focalLength"),
        (false, "horizontalAperture"),
        (false, "verticalAperture"),
        (false, "projection"),
        (false, "focusDistance"),
        (false, "fStop"),
    ];
    assert(probe_views(properties@) =~= camera_properties());
    if let Some(e) = first_error(stage, prim, &properties) {
        return Err(e);
    }
    let clip = pair_at(stage, prim, "clippingRange");
    let clip_near = match clip {
        Some(c) => Some(c.x),
        None => None,
    };
    let clip_far = match clip {
        Some(c) => Some(c.y),
        None => None,
    };
    Ok(
        Some(
            ReadCamera {
                focal_length_mm: number_at(stage, prim, "focalLength"),
                h_aperture_mm: number_at(stage, prim, "horizontalAperture"),
                v_aperture_mm: number_at(stage, prim, "verticalAperture"),
                clip_near,
                clip_far,
                projection: read_projection(stage, prim),
                focus_distance: number_at(stage, prim, "focusDistance"),
                f_stop: number_at(stage, prim, "fStop"),
            },
        ),
    )
}

} // verus!
