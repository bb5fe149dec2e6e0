//! UsdLux readers: typed light descriptions.

use super::util::{
    as_asset, as_bool, as_number, as_text, as_triple, asset_at, bool_at, first_error, first_problem,
    number_at, probe_views, targets_at, targets_of, text_at, triple_at,
};
use crate::stage::{Scalar, Stage, Triple};
use crate::text::{opt_view, str_eq, views};
use vstd::prelude::*;

verus! {

/// Inputs shared across every UsdLux light. `None` = inherit the UsdLux default.
#[derive(Debug)]
pub struct LightCommon {
    pub intensity: Option<Scalar>,
    pub exposure: Option<Scalar>,
    pub color: Option<Triple>,
    pub diffuse: Option<Scalar>,
    pub specular: Option<Scalar>,
    pub enable_color_temperature: Option<bool>,
    pub color_temperature: Option<Scalar>,
    pub normalize: Option<bool>,
    pub light_link_targets: Vec<String>,
    pub shadow_link_targets: Vec<String>,
    pub light_filters: Vec<String>,
}

#[derive(Debug)]
pub struct ReadDistantLight {
    pub common: LightCommon,
    pub angle_deg: Option<Scalar>,
}

#[derive(Debug)]
pub struct ReadSphereLight {
    pub common: LightCommon,
    pub radius: Option<Scalar>,
    pub cone_angle_deg: Option<Scalar>,
    pub cone_softness: Option<Scalar>,
}

#[derive(Debug)]
pub struct ReadRectLight {
    pub common: LightCommon,
    pub width: Option<Scalar>,
    pub height: Option<Scalar>,
}

#[derive(Debug)]
pub struct ReadDiskLight {
    pub common: LightCommon,
    pub radius: Option<Scalar>,
}

#[derive(Debug)]
pub struct ReadCylinderLight {
    pub common: LightCommon,
    pub length: Option<Scalar>,
    pub radius: Option<Scalar>,
}

#[derive(Debug)]
pub struct ReadDomeLight {
    pub common: LightCommon,
    pub texture_file: Option<String>,
    pub texture_format: Option<String>,
}

#[derive(Debug)]
pub enum ReadLight {
    Distant(ReadDistantLight),
    Sphere(ReadSphereLight),
    Rect(ReadRectLight),
    Disk(ReadDiskLight),
    Cylinder(ReadCylinderLight),
    Dome(ReadDomeLight),
}

/// The type names a UsdLux light.
pub open spec fn names_a_light(prim_type: Seq<char>) -> bool {
    ||| prim_type == "DistantLight"@
    ||| prim_type == "SphereLight"@
    ||| prim_type == "RectLight"@
    ||| prim_type == "DiskLight"@
    ||| prim_type == "CylinderLight"@
    ||| prim_type == "DomeLight"@
    ||| prim_type == "GeometryLight"@
    ||| prim_type == "PortalLight"@
}

pub fn is_light_type(prim_type: &str) -> (r: bool)
    ensures
        r == names_a_light(prim_type@),
{
    str_eq(prim_type, "DistantLight") || str_eq(prim_type, "SphereLight") || str_eq(
        prim_type,
        "RectLight",
    ) || str_eq(prim_type, "DiskLight") || str_eq(prim_type, "CylinderLight") || str_eq(
        prim_type,
        "DomeLight",
    ) || str_eq(prim_type, "GeometryLight") || str_eq(prim_type, "PortalLight")
}

/// The properties that every light has, in the order they are read.
pub open spec fn common_properties() -> Seq<(bool, Seq<char>)> {
    seq![
        (false, "inputs:intensity"@),
        (false, "inputs:exposure"@),
        (false, "inputs:color"@),
        (false, "inputs:diffuse"@),
        (false, "inputs:specular"@),
        (false, "inputs:enableColorTemperature"@),
        (false, "inputs:colorTemperature"@),
        (false, "inputs:normalize"@),
        (true, "light:link"@),
        (true, "shadow:link"@),
        (true, "light:filters"@),
    ]
}

/// The properties that a kind of light adds, in the order they are read.
pub open spec fn own_properties(prim_type: Seq<char>) -> Option<Seq<(bool, Seq<char>)>> {
    if prim_type == "DistantLight"@ {
        Some(seq![(false, "inputs:angle"@)])
    } else if prim_type == "SphereLight"@ {
        Some(
            seq![
                (false, "inputs:radius"@),
                (false, "inputs:shaping:cone:angle"@),
                (false, "inputs:shaping:cone:softness"@),
            ],
        )
    } else if prim_type == "RectLight"@ {
        Some(seq![(false, "inputs:width"@), (false, "inputs:height"@)])
    } else if prim_type == "DiskLight"@ {
        Some(seq![(false, "inputs:radius"@)])
    } else if prim_type == "CylinderLight"@ {
        Some(seq![(false, "inputs:length"@), (false, "inputs:radius"@)])
    } else if prim_type == "DomeLight"@ {
        Some(seq![(false, "inputs:texture:file"@), (false, "inputs:texture:format"@)])
    } else {
        None
    }
}

/// The record holds what the shared properties of a light decode to.
pub open spec fn common_decodes(stage: Stage, prim: Seq<char>, c: LightCommon) -> bool {
    &&& c.intensity == as_number(stage.value_of(prim, "inputs:intensity"@))
    &&& c.exposure == as_number(stage.value_of(prim, "inputs:exposure"@))
    &&& c.color == as_triple(stage.value_of(prim, "inputs:color"@))
    &&& c.diffuse == as_number(stage.value_of(prim, "inputs:diffuse"@))
    &&& c.specular == as_number(stage.value_of(prim, "inputs:specular"@))
    &&& c.enable_color_temperature == as_bool(
        stage.value_of(prim, "inputs:enableColorTemperature"@),
    )
    &&& c.color_temperature == as_number(stage.value_of(prim, "inputs:colorTemperature"@))
    &&& c.normalize == as_bool(stage.value_of(prim, "inputs:normalize"@))
    &&& views(c.light_link_targets@) == targets_of(stage, prim, "light:link"@)
    &&& views(c.shadow_link_targets@) == targets_of(stage, prim, "shadow:link"@)
    &&& views(c.light_filters@) == targets_of(stage, prim, "light:filters"@)
}

/// The record holds what the properties of a light of this type decode to.
pub open spec fn light_decodes(
    stage: Stage,
    prim: Seq<char>,
    prim_type: Seq<char>,
    light: ReadLight,
) -> bool {
    match light {
        ReadLight::Distant(l) => prim_type == "DistantLight"@ && common_decodes(
            stage,
            prim,
            l.common,
        ) && l.angle_deg == as_number(stage.value_of(prim, "inputs:angle"@)),
        ReadLight::Sphere(l) => prim_type == "SphereLight"@ && common_decodes(stage, prim, l.common)
            && l.radius == as_number(stage.value_of(prim, "inputs:radius"@)) && l.cone_angle_deg
            == as_number(stage.value_of(prim, "inputs:shaping:cone:angle"@)) && l.cone_softness
            == as_number(stage.value_of(prim, "inputs:shaping:cone:softness"@)),
        ReadLight::Rect(l) => prim_type == "RectLight"@ && common_decodes(stage, prim, l.common)
            && l.width == as_number(stage.value_of(prim, "inputs:width"@)) && l.height == as_number(
            stage.value_of(prim, "inputs:height"@),
        ),
        ReadLight::Disk(l) => prim_type == "DiskLight"@ && common_decodes(stage, prim, l.common)
            && l.radius == as_number(stage.value_of(prim, "inputs:radius"@)),
        ReadLight::Cylinder(l) => prim_type == "CylinderLight"@ && common_decodes(
            stage,
            prim,
            l.common,
        ) && l.length == as_number(stage.value_of(prim, "inputs:length"@)) && l.radius == as_number(
            stage.value_of(prim, "inputs:radius"@),
        ),
        ReadLight::Dome(l) => prim_type == "DomeLight"@ && common_decodes(stage, prim, l.common)
            && opt_view(l.texture_file) == as_asset(stage.value_of(prim, "inputs:texture:file"@))
            && opt_view(l.texture_format) == as_text(
            stage.value_of(prim, "inputs:texture:format"@),
        ),
    }
}

fn read_common(stage: &Stage, prim: &str) -> (r: LightCommon)
    ensures
        common_decodes(*stage, prim@, r),
{
    LightCommon {
        intensity: number_at(stage, prim, "inputs:intensity"),
        exposure: number_at(stage, prim, "inputs:exposure"),
        color: triple_at(stage, prim, "inputs:color"),
        diffuse: number_at(stage, prim, "inputs:diffuse"),
        specular: number_at(stage, prim, "inputs:specular"),
        enable_color_temperature: bool_at(stage, prim, "inputs:enableColorTemperature"),
        color_temperature: number_at(stage, prim, "inputs:colorTemperature"),
        normalize: bool_at(stage, prim, "inputs:normalize"),
        light_link_targets: targets_at(stage, prim, "light:link"),
        shadow_link_targets: targets_at(stage, prim, "shadow:link"),
        light_filters: targets_at(stage, prim, "light:filters"),
    }
}

fn common_error(stage: &Stage, prim: &str) -> (r: Option<String>)
    ensures
        opt_view(r) == first_problem(*stage, prim@, common_properties()),
{
    let properties = vec![
        (false, "inputs:intensity"),
        (false, "inputs:exposure"),
        (false, "inputs:color"),
        (false, "inputs:diffuse"),
        (false, "inputs:specular"),
        (false, "inputs:enableColorTemperature"),
        (false, "inputs:colorTemperature"),
        (false, "inputs:normalize"),
        (true, "light:link"),
        (true, "shadow:link"),
        (true, "light:filters"),
    ];
    assert(probe_views(properties@) =~= common_properties());
    first_error(stage, prim, &properties)
}

fn own_error(stage: &Stage, prim: &str, kind: &str) -> (r: Option<String>)
    requires
        own_properties(kind@) is Some,
    ensures
        opt_view(r) == first_problem(*stage, prim@, own_properties(kind@)->0),
{
    let properties: Vec<(bool, &str)> = if str_eq(kind, "DistantLight") {
        vec![(false, "inputs:angle")]
    } else if str_eq(kind, "SphereLight") {
        vec![
            (false, "inputs:radius"),
            (false, "inputs:shaping:cone:angle"),
            (false, "inputs:shaping:cone:softness"),
        ]
    } else if str_eq(kind, "RectLight") {
        vec![(false, "inputs:width"), (false, "inputs:height")]
    } else if str_eq(kind, "DiskLight") {
        vec![(false, "inputs:radius")]
    } else if str_eq(kind, "CylinderLight") {
        vec![(false, "inputs:length"), (false, "inputs:radius")]
    } else {
        vec![(false, "inputs:texture:file"), (false, "inputs:texture:format")]
    };
    assert(probe_views(properties@) =~= own_properties(kind@)->0);
    first_error(stage, prim, &properties)
}

/// The error of reading a light of this type: the shared properties first.
pub open spec fn light_problem(stage: Stage, prim: Seq<char>, prim_type: Seq<char>) -> Option<
    Seq<char>,
> {
    match first_problem(stage, prim, common_properties()) {
        Some(e) => Some(e),
        None => first_problem(stage, prim, own_properties(prim_type)->0),
    }
}

/// The light at `prim`; `None` for a prim that is no light with a record.
pub fn read_light(stage: &Stage, prim: &str) -> (r: Result<Option<ReadLight>, String>)
    ensures
        match stage.type_of(prim@) {
            Err(e) => r matches Err(text) && text@ == e,
            Ok(None) => r == Ok::<Option<ReadLight>, String>(None),
            Ok(Some(kind)) => if own_properties(kind) is None {
                r == Ok::<Option<ReadLight>, String>(None)
            } else {
                match light_problem(*stage, prim@, kind) {
                    Some(e) => r matches Err(text) && text@ == e,
                    None => r matches Ok(Some(light)) && light_decodes(*stage, prim@, kind, light),
                }
            },
        },
{
    let kind = match stage.prim_type(prim) {
        Err(e) => return Err(e),
        Ok(None) => return Ok(None),
        Ok(Some(kind)) => kind,
    };
    let name = kind.as_str();
    if !(str_eq(name, "DistantLight") || str_eq(name, "SphereLight") || str_eq(name, "RectLight")
        || str_eq(name, "DiskLight") || str_eq(name, "CylinderLight") || str_eq(name, "DomeLight")) {
        return Ok(None);
    }
    if let Some(e) = common_error(stage, prim) {
        return Err(e);
    }
    if let Some(e) = own_error(stage, prim, name) {
        return Err(e);
    }
    let common = read_common(stage, prim);
    let light = if str_eq(name, "DistantLight") {
        ReadLight::Distant(
            ReadDistantLight { common, angle_deg: number_at(stage, prim, "inputs:angle") },
        )
    } else if str_eq(name, "SphereLight") {
        ReadLight::Sphere(
            ReadSphereLight {
                common,
                radius: number_at(stage, prim, "inputs:radius"),
                cone_angle_deg: number_at(stage, prim, "inputs:shaping:cone:angle"),
                cone_softness: number_at(stage, prim, "inputs:shaping:cone:softness"),
            },
        )
    } else if str_eq(name, "RectLight") {
        ReadLight::Rect(
            ReadRectLight {
                common,
                width: number_at(stage, prim, "inputs:width"),
                height: number_at(stage, prim, "inputs:height"),
            },
        )
    } else if str_eq(name, "DiskLight") {
        ReadLight::Disk(ReadDiskLight { common, radius: number_at(stage, prim, "inputs:radius") })
    } else if str_eq(name, "CylinderLight") {
        ReadLight::Cylinder(
            ReadCylinderLight {
                common,
                length: number_at(stage, prim, "inputs:length"),
                radius: number_at(stage, prim, "inputs:radius"),
            },
        )
    } else {
        ReadLight::Dome(
            ReadDomeLight {
                common,
                texture_file: asset_at(stage, prim, "inputs:texture:file"),
                texture_format: text_at(stage, prim, "inputs:texture:format"),
            },
        )
    };
    Ok(Some(light))
}

/// Every light that a record is read for counts as a light type.
pub proof fn read_lights_are_lights(prim_type: Seq<char>)
    requires
        own_properties(prim_type) is Some,
    ensures
        names_a_light(prim_type),
{
}

} // verus!
