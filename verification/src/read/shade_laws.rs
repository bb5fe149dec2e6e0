//! What a decoded preview surface holds of its shader.

use super::shade::{
    previews, source_prim, surface_uv_transform, texture_of, uv_transform_of, PreviewInputs,
};
use super::util::{as_number, as_pair, as_text, as_triple};
use crate::path::property_split;
use crate::stage::{Pair, Scalar, Stage, Value};
use crate::text::{opt_view, views};
use vstd::prelude::*;

verus! {

/// Each factor of a preview surface is the input of its name.
pub proof fn surface_factors_have_their_inputs(
    stage: Stage,
    shader: Seq<char>,
    read: PreviewInputs,
)
    requires
        previews(stage, shader, read),
    ensures
        read.diffuse_color == as_triple(stage.value_of(shader, "inputs:diffuseColor"@)),
        read.opacity == as_number(stage.value_of(shader, "inputs:opacity"@)),
        read.opacity_threshold == as_number(stage.value_of(shader, "inputs:opacityThreshold"@)),
        read.roughness == as_number(stage.value_of(shader, "inputs:roughness"@)),
        read.metallic == as_number(stage.value_of(shader, "inputs:metallic"@)),
        read.emissive_color == as_triple(stage.value_of(shader, "inputs:emissiveColor"@)),
        read.ior == as_number(stage.value_of(shader, "inputs:ior"@)),
{
}

/// Each texture of a preview surface is that of the image which the input of
/// its name is connected to, and of no other input.
pub proof fn surface_textures_have_their_inputs(
    stage: Stage,
    shader: Seq<char>,
    read: PreviewInputs,
)
    requires
        previews(stage, shader, read),
    ensures
        opt_view(read.diffuse_texture) == texture_of(stage, shader, "inputs:diffuseColor"@),
        opt_view(read.normal_texture) == texture_of(stage, shader, "inputs:normal"@),
        opt_view(read.roughness_texture) == texture_of(stage, shader, "inputs:roughness"@),
        opt_view(read.metallic_texture) == texture_of(stage, shader, "inputs:metallic"@),
        opt_view(read.opacity_texture) == texture_of(stage, shader, "inputs:opacity"@),
        opt_view(read.emissive_texture) == texture_of(stage, shader, "inputs:emissiveColor"@),
        opt_view(read.occlusion_texture) == texture_of(stage, shader, "inputs:occlusion"@),
{
}

/// An input is fed by the prim that owns its first connection; an input with no
/// readable connection is fed by none.
pub proof fn inputs_are_fed_by_their_first_connection(
    stage: Stage,
    prim: Seq<char>,
    name: Seq<char>,
)
    ensures
        stage.attribute_of(prim, name) is None ==> source_prim(stage, prim, name) is None,
        stage.attribute_of(prim, name) matches Some(a) ==> {
            &&& a.connections is Err ==> source_prim(stage, prim, name) is None
            &&& a.connections matches Ok(list) ==> {
                &&& list@.len() == 0 ==> source_prim(stage, prim, name) is None
                &&& list@.len() > 0 && property_split(list@[0]@) is None ==> source_prim(
                    stage,
                    prim,
                    name,
                ) is None
                &&& list@.len() > 0 && property_split(list@[0]@) is Some ==> source_prim(
                    stage,
                    prim,
                    name,
                ) == Some((property_split(list@[0]@)->0).0)
            }
        },
{
    if let Some(a) = stage.attribute_of(prim, name) {
        if let Ok(list) = a.connections {
            assert(views(list@).len() == list@.len());
            if list@.len() > 0 {
                assert(views(list@)[0] == list@[0]@);
            }
        }
    }
}

/// A texture is the file of the image that feeds the input: where its asset
/// resolved to, and as authored only where it did not resolve.
pub proof fn textures_are_resolved_files(stage: Stage, shader: Seq<char>, input: Seq<char>)
    ensures
        source_prim(stage, shader, input) is None ==> texture_of(stage, shader, input) is None,
        source_prim(stage, shader, input) matches Some(image) ==> (match stage.value_of(
            image,
            "inputs:file"@,
        ) {
            Some(Value::Asset { authored, resolved }) => match resolved {
                Some(file) => texture_of(stage, shader, input) == Some(file@),
                None => texture_of(stage, shader, input) == Some(authored@),
            },
            _ => texture_of(stage, shader, input) is None,
        }),
{
}

/// A coordinate transform is read from a `UsdTransform2d` node between the
/// image and its coordinates. What is not authored there neither moves, scales
/// nor turns.
pub proof fn uv_transforms_have_their_inputs(stage: Stage, shader: Seq<char>, input: Seq<char>)
    ensures
        uv_transform_of(stage, shader, input) is Some <==> {
            &&& source_prim(stage, shader, input) matches Some(image) && source_prim(
                stage,
                image,
                "inputs:st"@,
            ) matches Some(node) && as_text(stage.value_of(node, "info:id"@)) == Some(
                "UsdTransform2d"@,
            )
        },
        uv_transform_of(stage, shader, input) matches Some(t) ==> {
            let image = source_prim(stage, shader, input)->0;
            let node = source_prim(stage, image, "inputs:st"@)->0;
            &&& as_pair(stage.value_of(node, "inputs:translation"@)) matches Some(p)
                ==> t.translation == p
            &&& as_pair(stage.value_of(node, "inputs:translation"@)) is None ==> t.translation == (
            Pair { x: Scalar::F32(0), y: Scalar::F32(0) })
            &&& as_pair(stage.value_of(node, "inputs:scale"@)) matches Some(p) ==> t.scale == p
            &&& as_pair(stage.value_of(node, "inputs:scale"@)) is None ==> t.scale == (Pair {
                x: Scalar::F32(0x3f80_0000),
                y: Scalar::F32(0x3f80_0000),
            })
            &&& as_number(stage.value_of(node, "inputs:rotation"@)) matches Some(x) ==> t.rotation
                == x
            &&& as_number(stage.value_of(node, "inputs:rotation"@)) is None ==> t.rotation
                == Scalar::F32(0)
        },
{
}

/// The transform of a surface is that of the first textured input that has one,
/// in the order diffuse, normal, roughness, metallic, opacity, emissive and
/// occlusion; where none has one, neither has the surface.
pub proof fn the_first_uv_transform_counts(stage: Stage, shader: Seq<char>)
    ensures
        ({
            let inputs = seq![
                "inputs:diffuseColor"@,
                "inputs:normal"@,
                "inputs:roughness"@,
                "inputs:metallic"@,
                "inputs:opacity"@,
                "inputs:emissiveColor"@,
                "inputs:occlusion"@,
            ];
            &&& forall|k: int|
                0 <= k < 7 && uv_transform_of(stage, shader, #[trigger] inputs[k]) is Some && (forall|
                    j: int,
                |
                    0 <= j < k ==> uv_transform_of(stage, shader, #[trigger] inputs[j]) is None)
                    ==> surface_uv_transform(stage, shader) == uv_transform_of(
                    stage,
                    shader,
                    inputs[k],
                )
            &&& (forall|k: int|
                0 <= k < 7 ==> uv_transform_of(stage, shader, #[trigger] inputs[k]) is None)
                ==> surface_uv_transform(stage, shader) is None
        }),
{
    let inputs = seq![
        "inputs:diffuseColor"@,
        "inputs:normal"@,
        "inputs:roughness"@,
        "inputs:metallic"@,
        "inputs:opacity"@,
        "inputs:emissiveColor"@,
        "inputs:occlusion"@,
    ];
    assert(inputs[0] == "inputs:diffuseColor"@);
    assert(inputs[1] == "inputs:normal"@);
    assert(inputs[2] == "inputs:roughness"@);
    assert(inputs[3] == "inputs:metallic"@);
    assert(inputs[4] == "inputs:opacity"@);
    assert(inputs[5] == "inputs:emissiveColor"@);
    assert(inputs[6] == "inputs:occlusion"@);
}

} // verus!
