//! The authored inputs of a bound preview surface.

use super::util::{
    as_number, as_pair, as_text, as_triple, first_of, first_target_at, number_at, pair_at,
    targets_of, text_at, triple_at,
};
use crate::float::ONE;
use crate::path::{property_split, split_property, text_pair};
use crate::stage::{attribute_targets, Pair, Scalar, Stage, Triple, Value};
use crate::text::{copy, opt_view, str_eq, views};
use vstd::prelude::*;

verus! {

/// The authored inputs of a preview surface, and the files that its inputs
/// take textures from.
#[derive(Debug)]
pub struct PreviewInputs {
    pub diffuse_color: Option<Triple>,
    pub opacity: Option<Scalar>,
    pub opacity_threshold: Option<Scalar>,
    pub roughness: Option<Scalar>,
    pub metallic: Option<Scalar>,
    pub emissive_color: Option<Triple>,
    pub ior: Option<Scalar>,
    pub diffuse_texture: Option<String>,
    pub normal_texture: Option<String>,
    pub roughness_texture: Option<String>,
    pub metallic_texture: Option<String>,
    pub opacity_texture: Option<String>,
    pub emissive_texture: Option<String>,
    pub occlusion_texture: Option<String>,
    pub uv_transform: Option<ReadUvTransform>,
}

/// A transform of texture coordinates: scaled, turned by degrees, then moved.
#[derive(Debug, Clone, Copy, PartialEq, Eq, Structural)]
pub struct ReadUvTransform {
    pub translation: Pair,
    pub scale: Pair,
    pub rotation: Scalar,
}

/// The material that is bound to a prim.
pub fn read_material_binding(stage: &Stage, prim: &str) -> (r: Option<String>)
    ensures
        opt_view(r) == first_of(targets_of(*stage, prim@, "material:binding"@)),
{
    first_target_at(stage, prim, "material:binding")
}

/// The prim that the first connection of an attribute comes from.
pub open spec fn source_prim(stage: Stage, prim: Seq<char>, name: Seq<char>) -> Option<Seq<char>> {
    match stage.targets(prim, name) {
        Ok(sources) => if sources.len() == 0 {
            None
        } else {
            match property_split(sources[0]) {
                Some((owner, _)) => Some(owner),
                None => None,
            }
        },
        Err(_) => None,
    }
}

fn source_prim_at(stage: &Stage, prim: &str, name: &str) -> (r: Option<String>)
    ensures
        opt_view(r) == source_prim(*stage, prim@, name@),
{
    match stage.attribute(prim, name) {
        None => None,
        Some(found) => match &found.connections {
            Err(_) => None,
            Ok(list) => {
                assert(attribute_targets(*found) == Ok::<Seq<Seq<char>>, Seq<char>>(views(list@)));
                if list.len() == 0 {
                    None
                } else {
                    assert(views(list@)[0] == list@[0]@);
                    let split = split_property(list[0].as_str());
                    assert(text_pair(split) == property_split(list@[0]@));
                    match split {
                        Some((owner, _)) => Some(owner),
                        None => None,
                    }
                }
            },
        },
    }
}

/// The file that an asset value names: where it resolved to, else as authored.
pub open spec fn as_file(value: Option<Value>) -> Option<Seq<char>> {
    match value {
        Some(Value::Asset { authored, resolved }) => match resolved {
            Some(file) => Some(file@),
            None => Some(authored@),
        },
        _ => None,
    }
}

/// The file of the texture that an input is connected to.
pub open spec fn texture_of(stage: Stage, shader: Seq<char>, input: Seq<char>) -> Option<Seq<char>> {
    match source_prim(stage, shader, input) {
        Some(image) => as_file(stage.value_of(image, "inputs:file"@)),
        None => None,
    }
}

fn texture_at(stage: &Stage, shader: &str, input: &str) -> (r: Option<String>)
    ensures
        opt_view(r) == texture_of(*stage, shader@, input@),
{
    match source_prim_at(stage, shader, input) {
        None => None,
        Some(image) => match stage.value(image.as_str(), "inputs:file") {
            Some(Value::Asset { authored, resolved }) => match resolved {
                Some(file) => Some(copy(file.as_str())),
                None => Some(copy(authored.as_str())),
            },
            _ => None,
        },
    }
}

/// The transform between a texture and its coordinates, where the texture that
/// an input is connected to takes them from one.
pub open spec fn uv_transform_of(stage: Stage, shader: Seq<char>, input: Seq<char>) -> Option<
    ReadUvTransform,
> {
    match source_prim(stage, shader, input) {
        None => None,
        Some(image) => match source_prim(stage, image, "inputs:st"@) {
            None => None,
            Some(node) => if as_text(stage.value_of(node, "info:id"@)) == Some("UsdTransform2d"@) {
                Some(
                    ReadUvTransform {
                        translation: pair_or(
                            as_pair(stage.value_of(node, "inputs:translation"@)),
                            0,
                        ),
                        scale: pair_or(as_pair(stage.value_of(node, "inputs:scale"@)), ONE),
                        rotation: match as_number(stage.value_of(node, "inputs:rotation"@)) {
                            Some(degrees) => degrees,
                            None => Scalar::F32(0),
                        },
                    },
                )
            } else {
                None
            },
        },
    }
}

/// The pair, or one of two equal floats.
pub open spec fn pair_or(pair: Option<Pair>, otherwise: u32) -> Pair {
    match pair {
        Some(found) => found,
        None => Pair { x: Scalar::F32(otherwise), y: Scalar::F32(otherwise) },
    }
}

/// The first of the two that is there.
pub open spec fn either<T>(a: Option<T>, b: Option<T>) -> Option<T> {
    if a is Some {
        a
    } else {
        b
    }
}

/// The coordinate transform of a surface: that of the first textured input
/// that has one.
pub open spec fn surface_uv_transform(stage: Stage, shader: Seq<char>) -> Option<ReadUvTransform> {
    either(
        uv_transform_of(stage, shader, "inputs:diffuseColor"@),
        either(
            uv_transform_of(stage, shader, "inputs:normal"@),
            either(
                uv_transform_of(stage, shader, "inputs:roughness"@),
                either(
                    uv_transform_of(stage, shader, "inputs:metallic"@),
                    either(
                        uv_transform_of(stage, shader, "inputs:opacity"@),
                        either(
                            uv_transform_of(stage, shader, "inputs:emissiveColor"@),
                            uv_transform_of(stage, shader, "inputs:occlusion"@),
                        ),
                    ),
                ),
            ),
        ),
    )
}

fn filled(pair: Option<Pair>, otherwise: u32) -> (r: Pair)
    ensures
        r == pair_or(pair, otherwise),
{
    match pair {
        Some(found) => found,
        None => Pair { x: Scalar::F32(otherwise), y: Scalar::F32(otherwise) },
    }
}

fn uv_transform_at(stage: &Stage, shader: &str, input: &str) -> (r: Option<ReadUvTransform>)
    ensures
        r == uv_transform_of(*stage, shader@, input@),
{
    let image = match source_prim_at(stage, shader, input) {
        Some(image) => image,
        None => return None,
    };
    let node = match source_prim_at(stage, image.as_str(), "inputs:st") {
        Some(node) => node,
        None => return None,
    };
    let n = node.as_str();
    match text_at(stage, n, "info:id") {
        Some(id) => if !str_eq(id.as_str(), "UsdTransform2d") {
            return None;
        },
        None => return None,
    }
    let rotation = match number_at(stage, n, "inputs:rotation") {
        Some(degrees) => degrees,
        None => Scalar::F32(0),
    };
    Some(
        ReadUvTransform {
            translation: filled(pair_at(stage, n, "inputs:translation"), 0),
            scale: filled(pair_at(stage, n, "inputs:scale"), ONE),
            rotation,
        },
    )
}

fn first_uv_transform(stage: &Stage, shader: &str) -> (r: Option<ReadUvTransform>)
    ensures
        r == surface_uv_transform(*stage, shader@),
{
    let diffuse = uv_transform_at(stage, shader, "inputs:diffuseColor");
    if diffuse.is_some() {
        return diffuse;
    }
    let normal = uv_transform_at(stage, shader, "inputs:normal");
    if normal.is_some() {
        return normal;
    }
    let roughness = uv_transform_at(stage, shader, "inputs:roughness");
    if roughness.is_some() {
        return roughness;
    }
    let metallic = uv_transform_at(stage, shader, "inputs:metallic");
    if metallic.is_some() {
        return metallic;
    }
    let opacity = uv_transform_at(stage, shader, "inputs:opacity");
    if opacity.is_some() {
        return opacity;
    }
    let emissive = uv_transform_at(stage, shader, "inputs:emissiveColor");
    if emissive.is_some() {
        return emissive;
    }
    uv_transform_at(stage, shader, "inputs:occlusion")
}

/// What the inputs of a shader say.
pub open spec fn previews(stage: Stage, shader: Seq<char>, read: PreviewInputs) -> bool {
    &&& read.diffuse_color == as_triple(stage.value_of(shader, "inputs:diffuseColor"@))
    &&& read.opacity == as_number(stage.value_of(shader, "inputs:opacity"@))
    &&& read.opacity_threshold == as_number(stage.value_of(shader, "inputs:opacityThreshold"@))
    &&& read.roughness == as_number(stage.value_of(shader, "inputs:roughness"@))
    &&& read.metallic == as_number(stage.value_of(shader, "inputs:metallic"@))
    &&& read.emissive_color == as_triple(stage.value_of(shader, "inputs:emissiveColor"@))
    &&& read.ior == as_number(stage.value_of(shader, "inputs:ior"@))
    &&& opt_view(read.diffuse_texture) == texture_of(stage, shader, "inputs:diffuseColor"@)
    &&& opt_view(read.normal_texture) == texture_of(stage, shader, "inputs:normal"@)
    &&& opt_view(read.roughness_texture) == texture_of(stage, shader, "inputs:roughness"@)
    &&& opt_view(read.metallic_texture) == texture_of(stage, shader, "inputs:metallic"@)
    &&& opt_view(read.opacity_texture) == texture_of(stage, shader, "inputs:opacity"@)
    &&& opt_view(read.emissive_texture) == texture_of(stage, shader, "inputs:emissiveColor"@)
    &&& opt_view(read.occlusion_texture) == texture_of(stage, shader, "inputs:occlusion"@)
    &&& read.uv_transform == surface_uv_transform(stage, shader)
}

/// The inputs of the surface shader that a material connects; `None` where it
/// connects none.
pub fn read_preview_material(stage: &Stage, material: &str) -> (r: Option<PreviewInputs>)
    ensures
        match source_prim(*stage, material@, "outputs:surface"@) {
            None => r is None,
            Some(shader) => r matches Some(read) && previews(*stage, shader, read),
        },
{
    let shader = match source_prim_at(stage, material, "outputs:surface") {
        None => return None,
        Some(shader) => shader,
    };
    let s = shader.as_str();
    Some(
        PreviewInputs {
            diffuse_color: triple_at(stage, s, "inputs:diffuseColor"),
            opacity: number_at(stage, s, "inputs:opacity"),
            opacity_threshold: number_at(stage, s, "inputs:opacityThreshold"),
            roughness: number_at(stage, s, "inputs:roughness"),
            metallic: number_at(stage, s, "inputs:metallic"),
            emissive_color: triple_at(stage, s, "inputs:emissiveColor"),
            ior: number_at(stage, s, "inputs:ior"),
            diffuse_texture: texture_at(stage, s, "inputs:diffuseColor"),
            normal_texture: texture_at(stage, s, "inputs:normal"),
            roughness_texture: texture_at(stage, s, "inputs:roughness"),
            metallic_texture: texture_at(stage, s, "inputs:metallic"),
            opacity_texture: texture_at(stage, s, "inputs:opacity"),
            emissive_texture: texture_at(stage, s, "inputs:emissiveColor"),
            occlusion_texture: texture_at(stage, s, "inputs:occlusion"),
            uv_transform: first_uv_transform(stage, s),
        },
    )
}

} // verus!
