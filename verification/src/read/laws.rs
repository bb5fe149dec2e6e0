//! What the readers give back of a stage: which prim and property a value comes
//! from, which types are taken, and which errors are reported.

use super::anim::{mode_of, operation_problem, operations, InterpMode};
use super::camera::{camera_at, camera_properties, Projection};
use super::lux::{
    common_decodes, common_properties, light_decodes, light_problem, names_a_light, own_properties,
    LightCommon, ReadLight,
};
use super::media::{audio_decodes, audio_properties, has_audio, ReadSpatialAudio};
use super::render::{
    product_decodes, product_properties, settings_decode, settings_properties, var_decodes,
    var_properties, ReadRenderProduct, ReadRenderSettings, ReadRenderVar,
};
use super::util::{
    as_asset, as_bool, as_double_pairs, as_int, as_int_pair, as_ints, as_number, as_numbers,
    as_pair, as_pairs, as_quads, as_text, as_texts, as_time, as_triple, as_triples, first_of,
    first_problem, list_outcome, or_empty, read_outcome, targets_of, text_outcome,
};
use crate::stage::{
    find_attribute, find_prim, find_relationship, Attribute, Authored, Pair, Prim, Relationship,
    Scalar, Stage, Triple, Value,
};
use crate::text::{opt_view, views};
use vstd::prelude::*;

verus! {

/// The first prim with a path is found, and none is found only where no prim
/// has it.
pub proof fn the_first_prim_with_the_path_is_found(prims: Seq<Prim>, path: Seq<char>)
    ensures
        find_prim(prims, path) matches Some(p) ==> exists|k: int|
            0 <= k < prims.len() && #[trigger] prims[k] == p && p.path@ == path && forall|j: int|
                0 <= j < k ==> (#[trigger] prims[j]).path@ != path,
        find_prim(prims, path) is None ==> forall|k: int|
            0 <= k < prims.len() ==> (#[trigger] prims[k]).path@ != path,
    decreases prims.len(),
{
    if prims.len() > 0 && prims[0].path@ != path {
        let rest = prims.skip(1);
        the_first_prim_with_the_path_is_found(rest, path);
        if let Some(p) = find_prim(rest, path) {
            let k = choose|k: int|
                0 <= k < rest.len() && #[trigger] rest[k] == p && p.path@ == path && forall|j: int|
                    0 <= j < k ==> (#[trigger] rest[j]).path@ != path;
            assert(prims[k + 1] == p);
            assert forall|j: int| 0 <= j < k + 1 implies (#[trigger] prims[j]).path@ != path by {
                if j > 0 {
                    assert(rest[j - 1].path@ != path);
                }
            }
        } else {
            assert forall|k: int| 0 <= k < prims.len() implies (#[trigger] prims[k]).path@ != path by {
                if k > 0 {
                    assert(rest[k - 1].path@ != path);
                }
            }
        }
    } else if prims.len() > 0 {
        assert(prims[0] == find_prim(prims, path)->0);
    }
}

/// The first attribute with a name is found, and none is found only where no
/// attribute has it.
pub proof fn the_first_attribute_with_the_name_is_found(list: Seq<Attribute>, name: Seq<char>)
    ensures
        find_attribute(list, name) matches Some(a) ==> exists|k: int|
            0 <= k < list.len() && #[trigger] list[k] == a && a.name@ == name && forall|j: int|
                0 <= j < k ==> (#[trigger] list[j]).name@ != name,
        find_attribute(list, name) is None ==> forall|k: int|
            0 <= k < list.len() ==> (#[trigger] list[k]).name@ != name,
    decreases list.len(),
{
    if list.len() > 0 && list[0].name@ != name {
        let rest = list.skip(1);
        the_first_attribute_with_the_name_is_found(rest, name);
        if let Some(a) = find_attribute(rest, name) {
            let k = choose|k: int|
                0 <= k < rest.len() && #[trigger] rest[k] == a && a.name@ == name && forall|j: int|
                    0 <= j < k ==> (#[trigger] rest[j]).name@ != name;
            assert(list[k + 1] == a);
            assert forall|j: int| 0 <= j < k + 1 implies (#[trigger] list[j]).name@ != name by {
                if j > 0 {
                    assert(rest[j - 1].name@ != name);
                }
            }
        } else {
            assert forall|k: int| 0 <= k < list.len() implies (#[trigger] list[k]).name@ != name by {
                if k > 0 {
                    assert(rest[k - 1].name@ != name);
                }
            }
        }
    } else if list.len() > 0 {
        assert(list[0] == find_attribute(list, name)->0);
    }
}

/// The first relationship with a name is found, and none is found only where
/// no relationship has it.
pub proof fn the_first_relationship_with_the_name_is_found(
    list: Seq<Relationship>,
    name: Seq<char>,
)
    ensures
        find_relationship(list, name) matches Some(a) ==> exists|k: int|
            0 <= k < list.len() && #[trigger] list[k] == a && a.name@ == name && forall|j: int|
                0 <= j < k ==> (#[trigger] list[j]).name@ != name,
        find_relationship(list, name) is None ==> forall|k: int|
            0 <= k < list.len() ==> (#[trigger] list[k]).name@ != name,
    decreases list.len(),
{
    if list.len() > 0 && list[0].name@ != name {
        let rest = list.skip(1);
        the_first_relationship_with_the_name_is_found(rest, name);
        if let Some(a) = find_relationship(rest, name) {
            let k = choose|k: int|
                0 <= k < rest.len() && #[trigger] rest[k] == a && a.name@ == name && forall|j: int|
                    0 <= j < k ==> (#[trigger] rest[j]).name@ != name;
            assert(list[k + 1] == a);
            assert forall|j: int| 0 <= j < k + 1 implies (#[trigger] list[j]).name@ != name by {
                if j > 0 {
                    assert(rest[j - 1].name@ != name);
                }
            }
        } else {
            assert forall|k: int| 0 <= k < list.len() implies (#[trigger] list[k]).name@ != name by {
                if k > 0 {
                    assert(rest[k - 1].name@ != name);
                }
            }
        }
    } else if list.len() > 0 {
        assert(list[0] == find_relationship(list, name)->0);
    }
}

/// A value, a timed value and connection targets are those of the attribute
/// that the prim has under the name; a prim or attribute that is not there has
/// none, without an error.
pub proof fn values_come_from_the_attribute(stage: Stage, prim: Seq<char>, name: Seq<char>)
    ensures
        find_prim(stage.prims@, prim) is None ==> stage.attribute_of(prim, name) is None,
        find_prim(stage.prims@, prim) matches Some(p) ==> stage.attribute_of(prim, name)
            == find_attribute(p.attributes@, name),
        stage.attribute_of(prim, name) is None ==> stage.value_of(prim, name) is None
            && stage.default_value(prim, name) == Ok::<Option<Authored>, Seq<char>>(None)
            && stage.timed_value(prim, name) == Ok::<Option<Authored>, Seq<char>>(None),
        stage.attribute_of(prim, name) is None ==> (stage.targets(prim, name) matches Ok(list)
            && list.len() == 0),
        stage.attribute_of(prim, name) matches Some(a) ==> {
            &&& a.at_default matches Ok(v) ==> stage.default_value(prim, name) == Ok::<
                Option<Authored>,
                Seq<char>,
            >(v)
            &&& a.at_default matches Err(e) ==> stage.default_value(prim, name) == Err::<
                Option<Authored>,
                Seq<char>,
            >(e@)
            &&& a.at_default matches Ok(Some(v)) ==> stage.value_of(prim, name) == Some(v.value)
            &&& !(a.at_default matches Ok(Some(_))) ==> stage.value_of(prim, name) is None
            &&& a.at_time matches Ok(v) ==> stage.timed_value(prim, name) == Ok::<
                Option<Authored>,
                Seq<char>,
            >(v)
            &&& a.at_time matches Err(e) ==> stage.timed_value(prim, name) == Err::<
                Option<Authored>,
                Seq<char>,
            >(e@)
            &&& a.connections matches Ok(list) ==> stage.targets(prim, name) == Ok::<
                Seq<Seq<char>>,
                Seq<char>,
            >(views(list@))
            &&& a.connections matches Err(e) ==> stage.targets(prim, name) == Err::<
                Seq<Seq<char>>,
                Seq<char>,
            >(e@)
        },
{
}

/// The type, the applied schemas and the targets of a relationship are those
/// of the prim; an absent prim or relationship has none, without an error.
pub proof fn prim_facts_come_from_the_prim(stage: Stage, prim: Seq<char>, name: Seq<char>)
    ensures
        find_prim(stage.prims@, prim) is None ==> stage.type_of(prim) == Ok::<
            Option<Seq<char>>,
            Seq<char>,
        >(None),
        find_prim(stage.prims@, prim) is None ==> (stage.applied(prim) matches Ok(list)
            && list.len() == 0),
        find_prim(stage.prims@, prim) is None ==> (stage.related(prim, name) matches Ok(list)
            && list.len() == 0),
        find_prim(stage.prims@, prim) matches Some(p) ==> {
            &&& p.prim_type matches Ok(t) ==> stage.type_of(prim) == Ok::<
                Option<Seq<char>>,
                Seq<char>,
            >(opt_view(t))
            &&& p.prim_type matches Err(e) ==> stage.type_of(prim) == Err::<
                Option<Seq<char>>,
                Seq<char>,
            >(e@)
            &&& p.api_schemas matches Ok(list) ==> stage.applied(prim) == Ok::<
                Seq<Seq<char>>,
                Seq<char>,
            >(views(list@))
            &&& p.api_schemas matches Err(e) ==> stage.applied(prim) == Err::<
                Seq<Seq<char>>,
                Seq<char>,
            >(e@)
            &&& find_relationship(p.relationships@, name) is None ==> (stage.related(
                prim,
                name,
            ) matches Ok(list) && list.len() == 0)
            &&& find_relationship(p.relationships@, name) matches Some(found) ==> {
                &&& found.targets matches Ok(list) ==> stage.related(prim, name) == Ok::<
                    Seq<Seq<char>>,
                    Seq<char>,
                >(views(list@))
                &&& found.targets matches Err(e) ==> stage.related(prim, name) == Err::<
                    Seq<Seq<char>>,
                    Seq<char>,
                >(e@)
            }
        },
{
}

/// Which value types count as numbers, times, ints and booleans, with what is
/// kept of them. No other type is taken.
pub proof fn numbers_keep_their_bits(value: Value)
    ensures
        value matches Value::Float(b) ==> as_number(Some(value)) == Some(Scalar::F32(b)),
        value matches Value::Double(b) ==> as_number(Some(value)) == Some(Scalar::F64(b)),
        value matches Value::Int(n) ==> as_number(Some(value)) == Some(Scalar::Int(n as i64)),
        !(value is Float || value is Double || value is Int) ==> as_number(Some(value)) is None,
        as_number(None) is None,
        value matches Value::TimeCode(b) ==> as_time(Some(value)) == Some(Scalar::F64(b)),
        !(value is TimeCode) ==> as_time(Some(value)) == as_number(Some(value)),
        as_time(None) is None,
        value matches Value::Int(n) ==> as_int(Some(value)) == Some(n),
        value matches Value::Int64(n) ==> (i32::MIN <= n <= i32::MAX ==> as_int(Some(value))
            == Some(n as i32)),
        !(value is Int || value is Int64) ==> as_int(Some(value)) is None,
        as_int(None) is None,
        value matches Value::Bool(b) ==> as_bool(Some(value)) == Some(b),
        !(value is Bool) ==> as_bool(Some(value)) is None,
        as_bool(None) is None,
{
}

/// Tokens and strings are texts; assets are texts only where a path is asked
/// for, and then as authored.
pub proof fn texts_keep_their_characters(value: Value)
    ensures
        value matches Value::Token(s) ==> as_text(Some(value)) == Some(s@),
        value matches Value::Text(s) ==> as_text(Some(value)) == Some(s@),
        !(value is Token || value is Text) ==> as_text(Some(value)) is None,
        as_text(None) is None,
        (value matches Value::Asset { authored, resolved } ==> as_asset(Some(value)) == Some(
            authored@,
        )),
        !(value is Asset) ==> as_asset(Some(value)) == as_text(Some(value)),
        as_asset(None) is None,
        value matches Value::TokenVec(v) ==> as_texts(Some(value)) == views(v@),
        value matches Value::TextVec(v) ==> as_texts(Some(value)) == views(v@),
        !(value is TokenVec || value is TextVec) ==> as_texts(Some(value)).len() == 0,
        as_texts(None).len() == 0,
{
}

/// Vectors keep their components in order.
pub proof fn vectors_keep_their_components(value: Value)
    ensures
        value matches Value::Vec3f(x, y, z) ==> as_triple(Some(value)) == Some(
            Triple { x: Scalar::F32(x), y: Scalar::F32(y), z: Scalar::F32(z) },
        ),
        value matches Value::Vec3d(x, y, z) ==> as_triple(Some(value)) == Some(
            Triple { x: Scalar::F64(x), y: Scalar::F64(y), z: Scalar::F64(z) },
        ),
        !(value is Vec3f || value is Vec3d) ==> as_triple(Some(value)) is None,
        as_triple(None) is None,
        value matches Value::Vec2f(x, y) ==> as_pair(Some(value)) == Some(
            Pair { x: Scalar::F32(x), y: Scalar::F32(y) },
        ),
        value matches Value::Vec2d(x, y) ==> as_pair(Some(value)) == Some(
            Pair { x: Scalar::F64(x), y: Scalar::F64(y) },
        ),
        !(value is Vec2f || value is Vec2d) ==> as_pair(Some(value)) is None,
        as_pair(None) is None,
        value matches Value::Vec2i(x, y) ==> as_int_pair(Some(value)) == Some((x, y)),
        !(value is Vec2i) ==> as_int_pair(Some(value)) is None,
        as_int_pair(None) is None,
{
}

/// Lists keep their items in order, and no list is made of another type.
pub proof fn lists_keep_their_items(value: Value)
    ensures
        value matches Value::IntVec(v) ==> as_ints(Some(value)) == Some(v@),
        value matches Value::Int64Vec(v) ==> as_ints(Some(value)) is Some && as_ints(
            Some(value),
        )->0.len() == v@.len() && forall|i: int|
            0 <= i < v@.len() ==> (i32::MIN <= v@[i] <= i32::MAX ==> (#[trigger] as_ints(
                Some(value),
            )->0[i]) == v@[i]),
        !(value is IntVec || value is Int64Vec) ==> as_ints(Some(value)) is None,
        as_ints(None) is None,
        value matches Value::FloatVec(v) ==> as_numbers(Some(value)) is Some && as_numbers(
            Some(value),
        )->0.len() == v@.len() && forall|i: int|
            0 <= i < v@.len() ==> (#[trigger] as_numbers(Some(value))->0[i]) == Scalar::F32(v@[i]),
        value matches Value::DoubleVec(v) ==> as_numbers(Some(value)) is Some && as_numbers(
            Some(value),
        )->0.len() == v@.len() && forall|i: int|
            0 <= i < v@.len() ==> (#[trigger] as_numbers(Some(value))->0[i]) == Scalar::F64(v@[i]),
        !(value is FloatVec || value is DoubleVec) ==> as_numbers(Some(value)) is None,
        as_numbers(None) is None,
        value matches Value::Vec3fVec(v) ==> as_triples(Some(value)) == v@,
        !(value is Vec3fVec) ==> as_triples(Some(value)).len() == 0,
        value matches Value::Vec2fVec(v) ==> as_pairs(Some(value)) == v@,
        !(value is Vec2fVec) ==> as_pairs(Some(value)).len() == 0,
        value matches Value::Vec2dVec(v) ==> as_double_pairs(Some(value)) == v@,
        !(value is Vec2dVec) ==> as_double_pairs(Some(value)).len() == 0,
        value matches Value::QuatfVec(v) ==> as_quads(Some(value)) == v@,
        !(value is QuatfVec) ==> as_quads(Some(value)).len() == 0,
        as_triples(None).len() == 0,
        as_pairs(None).len() == 0,
        as_double_pairs(None).len() == 0,
        as_quads(None).len() == 0,
{
}

/// A property is unreadable where its attribute, or its relationship where one
/// is meant, gives an error.
pub open spec fn unreadable(stage: Stage, prim: Seq<char>, probe: (bool, Seq<char>)) -> bool {
    if probe.0 {
        stage.related(prim, probe.1) is Err
    } else {
        stage.default_value(prim, probe.1) is Err
    }
}

/// A list of properties is readable exactly where each of them is. The error
/// that is reported is that of the first one that is not.
pub proof fn the_first_unreadable_property_is_reported(
    stage: Stage,
    prim: Seq<char>,
    probes: Seq<(bool, Seq<char>)>,
)
    ensures
        first_problem(stage, prim, probes) is None <==> forall|k: int|
            0 <= k < probes.len() ==> !unreadable(stage, prim, #[trigger] probes[k]),
        first_problem(stage, prim, probes) matches Some(e) ==> exists|k: int|
            0 <= k < probes.len() && unreadable(stage, prim, #[trigger] probes[k]) && (if probes[k].0 {
                stage.related(prim, probes[k].1) == Err::<Seq<Seq<char>>, Seq<char>>(e)
            } else {
                stage.default_value(prim, probes[k].1) == Err::<Option<Authored>, Seq<char>>(e)
            }) && forall|j: int| 0 <= j < k ==> !unreadable(stage, prim, #[trigger] probes[j]),
    decreases probes.len(),
{
    if probes.len() > 0 {
        let rest = probes.skip(1);
        the_first_unreadable_property_is_reported(stage, prim, rest);
        if unreadable(stage, prim, probes[0]) {
            assert(first_problem(stage, prim, probes) is Some);
        } else {
            if let Some(e) = first_problem(stage, prim, rest) {
                let k = choose|k: int|
                    0 <= k < rest.len() && unreadable(stage, prim, #[trigger] rest[k]) && (
                    if rest[k].0 {
                        stage.related(prim, rest[k].1) == Err::<Seq<Seq<char>>, Seq<char>>(e)
                    } else {
                        stage.default_value(prim, rest[k].1) == Err::<Option<Authored>, Seq<char>>(
                            e,
                        )
                    }) && forall|j: int|
                        0 <= j < k ==> !unreadable(stage, prim, #[trigger] rest[j]);
                assert(probes[k + 1] == rest[k]);
                assert forall|j: int| 0 <= j < k + 1 implies !unreadable(
                    stage,
                    prim,
                    #[trigger] probes[j],
                ) by {
                    if j > 0 {
                        assert(rest[j - 1] == probes[j]);
                    }
                }
            } else {
                assert forall|k: int| 0 <= k < probes.len() implies !unreadable(
                    stage,
                    prim,
                    #[trigger] probes[k],
                ) by {
                    if k > 0 {
                        assert(rest[k - 1] == probes[k]);
                    }
                }
            }
        }
    }
}

/// The targets of a relationship, and the first of them.
pub proof fn targets_are_the_composed_ones(stage: Stage, prim: Seq<char>, name: Seq<char>)
    ensures
        stage.related(prim, name) matches Ok(list) ==> targets_of(stage, prim, name) == list,
        stage.related(prim, name) is Err ==> targets_of(stage, prim, name).len() == 0,
        targets_of(stage, prim, name).len() > 0 ==> first_of(targets_of(stage, prim, name)) == Some(
            targets_of(stage, prim, name)[0],
        ),
        targets_of(stage, prim, name).len() == 0 ==> first_of(targets_of(stage, prim, name)) is None,
{
}

/// Each field of a camera is the attribute of its name, the clipping planes the
/// two parts of the clipping range in order.
pub proof fn camera_fields_have_their_attributes(stage: Stage, prim: Seq<char>)
    ensures
        ({
            let c = camera_at(stage, prim);
            &&& c.focal_length_mm == as_number(stage.value_of(prim, "focalLength"@))
            &&& c.h_aperture_mm == as_number(stage.value_of(prim, "horizontalAperture"@))
            &&& c.v_aperture_mm == as_number(stage.value_of(prim, "verticalAperture"@))
            &&& c.focus_distance == as_number(stage.value_of(prim, "focusDistance"@))
            &&& c.f_stop == as_number(stage.value_of(prim, "fStop"@))
            &&& stage.value_of(prim, "clippingRange"@) matches Some(Value::Vec2f(near, far)) ==> {
                &&& c.clip_near == Some(Scalar::F32(near))
                &&& c.clip_far == Some(Scalar::F32(far))
            }
            &&& stage.value_of(prim, "clippingRange"@) matches Some(Value::Vec2d(near, far)) ==> {
                &&& c.clip_near == Some(Scalar::F64(near))
                &&& c.clip_far == Some(Scalar::F64(far))
            }
            &&& as_pair(stage.value_of(prim, "clippingRange"@)) is None ==> c.clip_near is None
                && c.clip_far is None
            &&& c.projection == Some(Projection::Perspective) <==> as_text(
                stage.value_of(prim, "projection"@),
            ) == Some("perspective"@)
            &&& c.projection == Some(Projection::Orthographic) <==> as_text(
                stage.value_of(prim, "projection"@),
            ) == Some("orthographic"@)
        }),
{
    reveal_strlit("perspective");
    reveal_strlit("orthographic");
    assert("perspective"@.len() != "orthographic"@.len());
}

/// A camera is read only where all its properties can be.
pub proof fn cameras_report_unreadable_properties(stage: Stage, prim: Seq<char>)
    ensures
        first_problem(stage, prim, camera_properties()) is None <==> {
            &&& stage.default_value(prim, "clippingRange"@) is Ok
            &&& stage.default_value(prim, "focalLength"@) is Ok
            &&& stage.default_value(prim, "horizontalAperture"@) is Ok
            &&& stage.default_value(prim, "verticalAperture"@) is Ok
            &&& stage.default_value(prim, "projection"@) is Ok
            &&& stage.default_value(prim, "focusDistance"@) is Ok
            &&& stage.default_value(prim, "fStop"@) is Ok
        },
{
    let list = camera_properties();
    the_first_unreadable_property_is_reported(stage, prim, list);
    assert(list[0] == (false, "clippingRange"@));
    assert(list[1] == (false, "focalLength"@));
    assert(list[2] == (false, "horizontalAperture"@));
    assert(list[3] == (false, "verticalAperture"@));
    assert(list[4] == (false, "projection"@));
    assert(list[5] == (false, "focusDistance"@));
    assert(list[6] == (false, "fStop"@));
}

/// Each shared field of a light is the input or relationship of its name.
pub proof fn light_fields_have_their_inputs(stage: Stage, prim: Seq<char>, c: LightCommon)
    requires
        common_decodes(stage, prim, c),
    ensures
        c.intensity == as_number(stage.value_of(prim, "inputs:intensity"@)),
        c.exposure == as_number(stage.value_of(prim, "inputs:exposure"@)),
        c.color == as_triple(stage.value_of(prim, "inputs:color"@)),
        c.diffuse == as_number(stage.value_of(prim, "inputs:diffuse"@)),
        c.specular == as_number(stage.value_of(prim, "inputs:specular"@)),
        c.enable_color_temperature == as_bool(stage.value_of(prim, "inputs:enableColorTemperature"@)),
        c.color_temperature == as_number(stage.value_of(prim, "inputs:colorTemperature"@)),
        c.normalize == as_bool(stage.value_of(prim, "inputs:normalize"@)),
        views(c.light_link_targets@) == targets_of(stage, prim, "light:link"@),
        views(c.shadow_link_targets@) == targets_of(stage, prim, "shadow:link"@),
        views(c.light_filters@) == targets_of(stage, prim, "light:filters"@),
{
}

/// A prim type decides the kind of a light, and each field of its own is the
/// input of its name. Every kind carries the shared fields.
pub proof fn light_kinds_follow_the_type(
    stage: Stage,
    prim: Seq<char>,
    prim_type: Seq<char>,
    light: ReadLight,
)
    requires
        light_decodes(stage, prim, prim_type, light),
    ensures
        light is Distant <==> prim_type == "DistantLight"@,
        light is Sphere <==> prim_type == "SphereLight"@,
        light is Rect <==> prim_type == "RectLight"@,
        light is Disk <==> prim_type == "DiskLight"@,
        light is Cylinder <==> prim_type == "CylinderLight"@,
        light is Dome <==> prim_type == "DomeLight"@,
        light matches ReadLight::Distant(l) ==> common_decodes(stage, prim, l.common) && l.angle_deg
            == as_number(stage.value_of(prim, "inputs:angle"@)),
        light matches ReadLight::Sphere(l) ==> common_decodes(stage, prim, l.common) && l.radius
            == as_number(stage.value_of(prim, "inputs:radius"@)) && l.cone_angle_deg == as_number(
            stage.value_of(prim, "inputs:shaping:cone:angle"@),
        ) && l.cone_softness == as_number(stage.value_of(prim, "inputs:shaping:cone:softness"@)),
        light matches ReadLight::Rect(l) ==> common_decodes(stage, prim, l.common) && l.width
            == as_number(stage.value_of(prim, "inputs:width"@)) && l.height == as_number(
            stage.value_of(prim, "inputs:height"@),
        ),
        light matches ReadLight::Disk(l) ==> common_decodes(stage, prim, l.common) && l.radius
            == as_number(stage.value_of(prim, "inputs:radius"@)),
        light matches ReadLight::Cylinder(l) ==> common_decodes(stage, prim, l.common) && l.length
            == as_number(stage.value_of(prim, "inputs:length"@)) && l.radius == as_number(
            stage.value_of(prim, "inputs:radius"@),
        ),
        light matches ReadLight::Dome(l) ==> common_decodes(stage, prim, l.common) && opt_view(
            l.texture_file,
        ) == as_asset(stage.value_of(prim, "inputs:texture:file"@)) && opt_view(l.texture_format)
            == as_text(stage.value_of(prim, "inputs:texture:format"@)),
{
    light_type_names_differ();
}

proof fn light_type_names_differ()
    ensures
        "DistantLight"@ != "SphereLight"@,
        "DistantLight"@ != "RectLight"@,
        "DistantLight"@ != "DiskLight"@,
        "DistantLight"@ != "CylinderLight"@,
        "DistantLight"@ != "DomeLight"@,
        "SphereLight"@ != "RectLight"@,
        "SphereLight"@ != "DiskLight"@,
        "SphereLight"@ != "CylinderLight"@,
        "SphereLight"@ != "DomeLight"@,
        "RectLight"@ != "DiskLight"@,
        "RectLight"@ != "CylinderLight"@,
        "RectLight"@ != "DomeLight"@,
        "DiskLight"@ != "CylinderLight"@,
        "DiskLight"@ != "DomeLight"@,
        "CylinderLight"@ != "DomeLight"@,
{
    reveal_strlit("DistantLight");
    reveal_strlit("SphereLight");
    reveal_strlit("RectLight");
    reveal_strlit("DiskLight");
    reveal_strlit("CylinderLight");
    reveal_strlit("DomeLight");
    assert("DistantLight"@[1] == 'i' && "DistantLight"@[3] == 't');
    assert("SphereLight"@[1] == 'p');
    assert("RectLight"@[1] == 'e');
    assert("DiskLight"@[1] == 'i' && "DiskLight"@[3] == 'k');
    assert("CylinderLight"@[1] == 'y');
    assert("DomeLight"@[1] == 'o');
}

/// The six kinds of light with a record are those of the six types, and a
/// light is read only where every property that its record holds can be.
pub proof fn lights_report_unreadable_properties(stage: Stage, prim: Seq<char>, kind: Seq<char>)
    ensures
        own_properties(kind) is Some <==> kind == "DistantLight"@ || kind == "SphereLight"@ || kind
            == "RectLight"@ || kind == "DiskLight"@ || kind == "CylinderLight"@ || kind
            == "DomeLight"@,
        first_problem(stage, prim, common_properties()) is None <==> {
            &&& stage.default_value(prim, "inputs:intensity"@) is Ok
            &&& stage.default_value(prim, "inputs:exposure"@) is Ok
            &&& stage.default_value(prim, "inputs:color"@) is Ok
            &&& stage.default_value(prim, "inputs:diffuse"@) is Ok
            &&& stage.default_value(prim, "inputs:specular"@) is Ok
            &&& stage.default_value(prim, "inputs:enableColorTemperature"@) is Ok
            &&& stage.default_value(prim, "inputs:colorTemperature"@) is Ok
            &&& stage.default_value(prim, "inputs:normalize"@) is Ok
            &&& stage.related(prim, "light:link"@) is Ok
            &&& stage.related(prim, "shadow:link"@) is Ok
            &&& stage.related(prim, "light:filters"@) is Ok
        },
        light_problem(stage, prim, kind) is None ==> first_problem(
            stage,
            prim,
            common_properties(),
        ) is None,
        kind == "SphereLight"@ && light_problem(stage, prim, kind) is None ==> {
            &&& stage.default_value(prim, "inputs:radius"@) is Ok
            &&& stage.default_value(prim, "inputs:shaping:cone:angle"@) is Ok
            &&& stage.default_value(prim, "inputs:shaping:cone:softness"@) is Ok
        },
        kind == "DistantLight"@ && light_problem(stage, prim, kind) is None ==> stage.default_value(
            prim,
            "inputs:angle"@,
        ) is Ok,
        kind == "RectLight"@ && light_problem(stage, prim, kind) is None ==> stage.default_value(
            prim,
            "inputs:width"@,
        ) is Ok && stage.default_value(prim, "inputs:height"@) is Ok,
        kind == "DiskLight"@ && light_problem(stage, prim, kind) is None ==> stage.default_value(
            prim,
            "inputs:radius"@,
        ) is Ok,
        kind == "CylinderLight"@ && light_problem(stage, prim, kind) is None
            ==> stage.default_value(prim, "inputs:length"@) is Ok && stage.default_value(
            prim,
            "inputs:radius"@,
        ) is Ok,
        kind == "DomeLight"@ && light_problem(stage, prim, kind) is None ==> stage.default_value(
            prim,
            "inputs:texture:file"@,
        ) is Ok && stage.default_value(prim, "inputs:texture:format"@) is Ok,
{
    light_type_names_differ();
    let list = common_properties();
    the_first_unreadable_property_is_reported(stage, prim, list);
    assert(list[0] == (false, "inputs:intensity"@));
    assert(list[1] == (false, "inputs:exposure"@));
    assert(list[2] == (false, "inputs:color"@));
    assert(list[3] == (false, "inputs:diffuse"@));
    assert(list[4] == (false, "inputs:specular"@));
    assert(list[5] == (false, "inputs:enableColorTemperature"@));
    assert(list[6] == (false, "inputs:colorTemperature"@));
    assert(list[7] == (false, "inputs:normalize"@));
    assert(list[8] == (true, "light:link"@));
    assert(list[9] == (true, "shadow:link"@));
    assert(list[10] == (true, "light:filters"@));
    if own_properties(kind) is Some {
        let own = own_properties(kind)->0;
        the_first_unreadable_property_is_reported(stage, prim, own);
        if kind == "SphereLight"@ {
            assert(own[0] == (false, "inputs:radius"@));
            assert(own[1] == (false, "inputs:shaping:cone:angle"@));
            assert(own[2] == (false, "inputs:shaping:cone:softness"@));
        } else if kind == "DistantLight"@ {
            assert(own[0] == (false, "inputs:angle"@));
        } else if kind == "RectLight"@ {
            assert(own[0] == (false, "inputs:width"@));
            assert(own[1] == (false, "inputs:height"@));
        } else if kind == "DiskLight"@ {
            assert(own[0] == (false, "inputs:radius"@));
        } else if kind == "CylinderLight"@ {
            assert(own[0] == (false, "inputs:length"@));
            assert(own[1] == (false, "inputs:radius"@));
        } else {
            assert(own[0] == (false, "inputs:texture:file"@));
            assert(own[1] == (false, "inputs:texture:format"@));
        }
    }
}

/// Each field of a sound source is the property of its name, and a source is
/// there where any of these but the media offset is authored.
pub proof fn sound_fields_have_their_properties(stage: Stage, prim: Seq<char>, a: ReadSpatialAudio)
    requires
        audio_decodes(stage, prim, a),
    ensures
        opt_view(a.file_path) == as_asset(stage.value_of(prim, "filePath"@)),
        opt_view(a.aural_mode) == as_text(stage.value_of(prim, "auralMode"@)),
        opt_view(a.playback_mode) == as_text(stage.value_of(prim, "playbackMode"@)),
        a.start_time == as_time(stage.value_of(prim, "startTime"@)),
        a.end_time == as_time(stage.value_of(prim, "endTime"@)),
        a.media_offset == as_time(stage.value_of(prim, "mediaOffset"@)),
        a.gain == as_time(stage.value_of(prim, "gain"@)),
        has_audio(stage, prim) <==> a.file_path is Some || a.aural_mode is Some || a.playback_mode
            is Some || a.start_time is Some || a.end_time is Some || a.gain is Some,
{
}

/// A sound source is read only where all its properties can be.
pub proof fn sounds_report_unreadable_properties(stage: Stage, prim: Seq<char>)
    ensures
        first_problem(stage, prim, audio_properties()) is None <==> {
            &&& stage.default_value(prim, "filePath"@) is Ok
            &&& stage.default_value(prim, "auralMode"@) is Ok
            &&& stage.default_value(prim, "playbackMode"@) is Ok
            &&& stage.default_value(prim, "startTime"@) is Ok
            &&& stage.default_value(prim, "endTime"@) is Ok
            &&& stage.default_value(prim, "mediaOffset"@) is Ok
            &&& stage.default_value(prim, "gain"@) is Ok
        },
{
    let list = audio_properties();
    the_first_unreadable_property_is_reported(stage, prim, list);
    assert(list[0] == (false, "filePath"@));
    assert(list[1] == (false, "auralMode"@));
    assert(list[2] == (false, "playbackMode"@));
    assert(list[3] == (false, "startTime"@));
    assert(list[4] == (false, "endTime"@));
    assert(list[5] == (false, "mediaOffset"@));
    assert(list[6] == (false, "gain"@));
}

/// Each field of the render records is the property of its name.
pub proof fn render_fields_have_their_properties(
    stage: Stage,
    prim: Seq<char>,
    s: ReadRenderSettings,
    p: ReadRenderProduct,
    v: ReadRenderVar,
)
    ensures
        settings_decode(stage, prim, s) ==> {
            &&& s.path@ == prim
            &&& s.resolution == as_int_pair(stage.value_of(prim, "resolution"@))
            &&& s.pixel_aspect_ratio == as_number(stage.value_of(prim, "pixelAspectRatio"@))
            &&& opt_view(s.aspect_ratio_conform_policy) == as_text(
                stage.value_of(prim, "aspectRatioConformPolicy"@),
            )
            &&& views(s.products@) == targets_of(stage, prim, "products"@)
            &&& views(s.included_purposes@) == as_texts(stage.value_of(prim, "includedPurposes"@))
            &&& views(s.material_binding_purposes@) == as_texts(
                stage.value_of(prim, "materialBindingPurposes"@),
            )
        },
        product_decodes(stage, prim, p) ==> {
            &&& p.path@ == prim
            &&& opt_view(p.product_type) == as_text(stage.value_of(prim, "productType"@))
            &&& opt_view(p.product_name) == as_asset(stage.value_of(prim, "productName"@))
            &&& opt_view(p.camera) == first_of(targets_of(stage, prim, "camera"@))
            &&& views(p.ordered_vars@) == targets_of(stage, prim, "orderedVars"@)
        },
        var_decodes(stage, prim, v) ==> {
            &&& v.path@ == prim
            &&& opt_view(v.data_type) == as_text(stage.value_of(prim, "dataType"@))
            &&& opt_view(v.source_name) == as_asset(stage.value_of(prim, "sourceName"@))
            &&& opt_view(v.source_type) == as_text(stage.value_of(prim, "sourceType"@))
        },
{
}

/// A render record is read only where all its properties can be.
pub proof fn render_records_report_unreadable_properties(stage: Stage, prim: Seq<char>)
    ensures
        first_problem(stage, prim, settings_properties()) is None <==> {
            &&& stage.default_value(prim, "resolution"@) is Ok
            &&& stage.default_value(prim, "pixelAspectRatio"@) is Ok
            &&& stage.default_value(prim, "aspectRatioConformPolicy"@) is Ok
            &&& stage.related(prim, "products"@) is Ok
            &&& stage.default_value(prim, "includedPurposes"@) is Ok
            &&& stage.default_value(prim, "materialBindingPurposes"@) is Ok
        },
        first_problem(stage, prim, product_properties()) is None <==> {
            &&& stage.default_value(prim, "productType"@) is Ok
            &&& stage.default_value(prim, "productName"@) is Ok
            &&& stage.related(prim, "camera"@) is Ok
            &&& stage.related(prim, "orderedVars"@) is Ok
        },
        first_problem(stage, prim, var_properties()) is None <==> {
            &&& stage.default_value(prim, "dataType"@) is Ok
            &&& stage.default_value(prim, "sourceName"@) is Ok
            &&& stage.default_value(prim, "sourceType"@) is Ok
        },
{
    let list = settings_properties();
    the_first_unreadable_property_is_reported(stage, prim, list);
    assert(list[0] == (false, "resolution"@));
    assert(list[1] == (false, "pixelAspectRatio"@));
    assert(list[2] == (false, "aspectRatioConformPolicy"@));
    assert(list[3] == (true, "products"@));
    assert(list[4] == (false, "includedPurposes"@));
    assert(list[5] == (false, "materialBindingPurposes"@));
    let list = product_properties();
    the_first_unreadable_property_is_reported(stage, prim, list);
    assert(list[0] == (false, "productType"@));
    assert(list[1] == (false, "productName"@));
    assert(list[2] == (true, "camera"@));
    assert(list[3] == (true, "orderedVars"@));
    let list = var_properties();
    the_first_unreadable_property_is_reported(stage, prim, list);
    assert(list[0] == (false, "dataType"@));
    assert(list[1] == (false, "sourceName"@));
    assert(list[2] == (false, "sourceType"@));
}

/// Reading one attribute gives its error where it has one, and what is decoded
/// in every other case.
pub proof fn attribute_reads_report_errors<T>(
    stage: Stage,
    prim: Seq<char>,
    name: Seq<char>,
    one: Result<T, String>,
    decoded: T,
    text: Result<Option<String>, String>,
    word: Option<Seq<char>>,
    many: Result<Vec<T>, String>,
    items: Seq<T>,
)
    requires
        read_outcome(stage, prim, name, one, decoded),
        text_outcome(stage, prim, name, text, word),
        list_outcome(stage, prim, name, many, items),
    ensures
        stage.default_value(prim, name) is Ok ==> one == Ok::<T, String>(decoded),
        stage.default_value(prim, name) is Ok ==> (text matches Ok(t) && opt_view(t) == word),
        stage.default_value(prim, name) is Ok ==> (many matches Ok(list) && list@ == items),
        stage.default_value(prim, name) matches Err(e) ==> (one matches Err(t) && t@ == e),
        stage.default_value(prim, name) matches Err(e) ==> (text matches Err(t) && t@ == e),
        stage.default_value(prim, name) matches Err(e) ==> (many matches Err(t) && t@ == e),
        or_empty(Some(items)) == items,
        or_empty(None::<Seq<T>>).len() == 0,
{
}

/// The tracks of an animated prim are read only where each of the six
/// operations can be: its samples, and its interpolation where it has samples.
pub proof fn operations_report_unreadable_tracks(stage: Stage, prim: Seq<char>)
    ensures
        operation_problem(stage, prim, operations()) is None <==> {
            &&& readable_track(stage, prim, "xformOp:translate"@)
            &&& readable_track(stage, prim, "xformOp:rotateXYZ"@)
            &&& readable_track(stage, prim, "xformOp:scale"@)
            &&& readable_track(stage, prim, "xformOp:rotateX"@)
            &&& readable_track(stage, prim, "xformOp:rotateY"@)
            &&& readable_track(stage, prim, "xformOp:rotateZ"@)
        },
{
    let names = operations();
    assert(names.take(6) =~= names);
    assert(names.take(6).drop_last() =~= names.take(5));
    assert(names.take(5).drop_last() =~= names.take(4));
    assert(names.take(4).drop_last() =~= names.take(3));
    assert(names.take(3).drop_last() =~= names.take(2));
    assert(names.take(2).drop_last() =~= names.take(1));
    assert(names.take(1).drop_last() =~= Seq::<Seq<char>>::empty());
    reveal_with_fuel(operation_problem, 8);
    assert(names.take(1).last() == "xformOp:translate"@);
    assert(names.take(2).last() == "xformOp:rotateXYZ"@);
    assert(names.take(3).last() == "xformOp:scale"@);
    assert(names.take(4).last() == "xformOp:rotateX"@);
    assert(names.take(5).last() == "xformOp:rotateY"@);
    assert(names.take(6).last() == "xformOp:rotateZ"@);
}

/// The samples of the attribute can be read, and so can its interpolation where
/// it has any.
pub open spec fn readable_track(stage: Stage, prim: Seq<char>, name: Seq<char>) -> bool {
    stage.attribute_of(prim, name) matches Some(a) ==> (a.samples matches Ok(list) && (list@.len()
        > 0 ==> a.interpolation is Ok))
}

/// Interpolation tokens: `linear` and `held` name their modes and nothing else
/// does.
pub proof fn tokens_name_their_mode(token: Seq<char>)
    ensures
        mode_of(token) == Some(InterpMode::Linear) <==> token == "linear"@,
        mode_of(token) == Some(InterpMode::Held) <==> token == "held"@,
{
    reveal_strlit("linear");
    reveal_strlit("held");
    assert("linear"@.len() != "held"@.len());
}

/// The eight types of light prims.
pub proof fn light_types_are_known(prim_type: Seq<char>)
    ensures
        names_a_light(prim_type) <==> prim_type == "DistantLight"@ || prim_type == "SphereLight"@
            || prim_type == "RectLight"@ || prim_type == "DiskLight"@ || prim_type
            == "CylinderLight"@ || prim_type == "DomeLight"@ || prim_type == "GeometryLight"@
            || prim_type == "PortalLight"@,
{
}

} // verus!
