//! What uniform slots, sampler settings and diagnostics stand for.

use super::compiler::{
    compile_result, failure_text, CompileFailure, CompiledMaterialX, CompiledTexture,
};
use super::diagnostic::{
    code_text, diagnostic_text, error_view, location_text, newest, warning_view, DiagnosticCode,
    DiagnosticView, Severity,
};
use super::emit::SurfaceExpressions;
use super::graph::{CompiledView, TextureView};
use super::material::{
    address_mode_of, decodes_texture, decoding_ends, fails_with, graph_asset_path, graph_identity,
    module_identity, sampling_of, slotted_textures, texture_problem, uniform_block, AddressMode,
    FilterMode, Sampling,
};
use super::registry::{
    defines, find_node, host_port, is_bundled, is_callable, standard_surface_node, Coverage,
    CoverageView, Port, TranslatorModule,
};
use super::value::{
    authored_slot, components, default_slot, digits_end, first_bad, is_digit, is_float, is_number,
    is_word, Lane, LaneView, Slot, SlotView,
};
use crate::stage::{Authored, Value};
use crate::text::{
    decimal, hex, occurs, opt_view, quoted, same_ignoring_case, split_on, trimmed,
};
use crate::text_laws::keys_have_their_own_digits;
use vstd::prelude::*;

verus! {

/// How many numbers a value of each type holds.
pub proof fn types_have_their_components()
    ensures
        components("integer"@) == Some(1nat),
        components("float"@) == Some(1nat),
        components("vector2"@) == Some(2nat),
        components("vector3"@) == Some(3nat),
        components("color3"@) == Some(3nat),
        components("vector4"@) == Some(4nat),
        components("color4"@) == Some(4nat),
        components("boolean"@) is None,
        components("string"@) is None,
        components("filename"@) is None,
{
    type_names_differ();
    reveal_strlit("string");
    reveal_strlit("filename");
    assert("string"@[0] == 's');
    assert("filename"@[1] == 'i');
}

proof fn type_names_differ()
    ensures
        "boolean"@[0] == 'b',
        "integer"@[0] == 'i',
        "float"@[0] == 'f' && "float"@[1] == 'l',
        "vector2"@[0] == 'v' && "vector2"@[6] == '2',
        "vector3"@[0] == 'v' && "vector3"@[6] == '3',
        "vector4"@[0] == 'v' && "vector4"@[6] == '4',
        "color3"@[0] == 'c' && "color3"@[5] == '3',
        "color4"@[0] == 'c' && "color4"@[5] == '4',
{
    reveal_strlit("float");
    reveal_strlit("integer");
    reveal_strlit("boolean");
    reveal_strlit("vector2");
    reveal_strlit("vector3");
    reveal_strlit("vector4");
    reveal_strlit("color3");
    reveal_strlit("color4");
}

/// The slot has these lanes and zeros after them.
pub open spec fn fills(slot: SlotView, lanes: Seq<LaneView>) -> bool {
    &&& lanes.len() <= 4
    &&& slot.x == (if lanes.len() > 0 {
        lanes[0]
    } else {
        LaneView::Bits32(0)
    })
    &&& slot.y == (if lanes.len() > 1 {
        lanes[1]
    } else {
        LaneView::Bits32(0)
    })
    &&& slot.z == (if lanes.len() > 2 {
        lanes[2]
    } else {
        LaneView::Bits32(0)
    })
    &&& slot.w == (if lanes.len() > 3 {
        lanes[3]
    } else {
        LaneView::Bits32(0)
    })
}

/// An authored number fills the first lane of a slot of its own type with its
/// own bits; a boolean is one or zero there.
pub proof fn authored_numbers_fill_the_first_lane(authored: Authored)
    ensures
        authored.value matches Value::Float(b) ==> (authored_slot("float"@, authored) matches Ok(s)
            && fills(s, seq![LaneView::Bits32(b)])),
        authored.value matches Value::Double(b) ==> (authored_slot("float"@, authored) matches Ok(s)
            && fills(s, seq![LaneView::Bits64(b)])),
        authored.value matches Value::Int(n) ==> (authored_slot("integer"@, authored) matches Ok(s)
            && fills(s, seq![LaneView::Int(n as i64)])),
        authored.value matches Value::Int64(n) ==> (authored_slot("integer"@, authored) matches Ok(
            s,
        ) && fills(s, seq![LaneView::Int(n)])),
        authored.value matches Value::Bool(b) ==> (authored_slot("boolean"@, authored) matches Ok(s)
            && fills(
            s,
            seq![
                LaneView::Bits32(
                    if b {
                        0x3f80_0000
                    } else {
                        0
                    },
                ),
            ],
        )),
{
}

/// An authored vector fills the lanes of a slot of its own size in order, as a
/// vector or as a colour.
pub proof fn authored_vectors_fill_their_lanes(materialx_type: Seq<char>, authored: Authored)
    ensures
        materialx_type == "vector2"@ ==> (authored.value matches Value::Vec2f(x, y) ==> (
        authored_slot(materialx_type, authored) matches Ok(s) && fills(
            s,
            seq![LaneView::Bits32(x), LaneView::Bits32(y)],
        ))),
        materialx_type == "vector2"@ ==> (authored.value matches Value::Vec2d(x, y) ==> (
        authored_slot(materialx_type, authored) matches Ok(s) && fills(
            s,
            seq![LaneView::Bits64(x), LaneView::Bits64(y)],
        ))),
        materialx_type == "vector3"@ || materialx_type == "color3"@ ==> (
        authored.value matches Value::Vec3f(x, y, z) ==> (authored_slot(
            materialx_type,
            authored,
        ) matches Ok(s) && fills(
            s,
            seq![LaneView::Bits32(x), LaneView::Bits32(y), LaneView::Bits32(z)],
        ))),
        materialx_type == "vector3"@ || materialx_type == "color3"@ ==> (
        authored.value matches Value::Vec3d(x, y, z) ==> (authored_slot(
            materialx_type,
            authored,
        ) matches Ok(s) && fills(
            s,
            seq![LaneView::Bits64(x), LaneView::Bits64(y), LaneView::Bits64(z)],
        ))),
        materialx_type == "vector4"@ || materialx_type == "color4"@ ==> (
        authored.value matches Value::Vec4f(x, y, z, w) ==> (authored_slot(
            materialx_type,
            authored,
        ) matches Ok(s) && fills(
            s,
            seq![LaneView::Bits32(x), LaneView::Bits32(y), LaneView::Bits32(z), LaneView::Bits32(w)],
        ))),
        materialx_type == "vector4"@ || materialx_type == "color4"@ ==> (
        authored.value matches Value::Vec4d(x, y, z, w) ==> (authored_slot(
            materialx_type,
            authored,
        ) matches Ok(s) && fills(
            s,
            seq![LaneView::Bits64(x), LaneView::Bits64(y), LaneView::Bits64(z), LaneView::Bits64(w)],
        ))),
{
}

/// A value of another type than the input's is refused, and the message tells
/// both.
pub proof fn mismatched_values_are_refused(materialx_type: Seq<char>, authored: Authored)
    ensures
        authored_slot(materialx_type, authored) matches Err(message) ==> message
            == "expected MaterialX "@ + materialx_type + ", got authored USD value "@
            + authored.shown@,
        authored_slot(materialx_type, authored) is Ok && authored.value is Bool ==> materialx_type
            == "boolean"@,
        authored_slot(materialx_type, authored) is Ok && (authored.value is Int || authored.value
            is Int64) ==> materialx_type == "integer"@,
        authored_slot(materialx_type, authored) is Ok && (authored.value is Float || authored.value
            is Double) ==> materialx_type == "float"@,
        authored_slot(materialx_type, authored) is Ok && (authored.value is Vec2f || authored.value
            is Vec2d) ==> materialx_type == "vector2"@,
        authored_slot(materialx_type, authored) is Ok && (authored.value is Vec3f || authored.value
            is Vec3d) ==> materialx_type == "vector3"@ || materialx_type == "color3"@,
        authored_slot(materialx_type, authored) is Ok && (authored.value is Vec4f || authored.value
            is Vec4d) ==> materialx_type == "vector4"@ || materialx_type == "color4"@,
        !(authored.value is Bool || authored.value is Int || authored.value is Int64
            || authored.value is Float || authored.value is Double || authored.value is Vec2f
            || authored.value is Vec2d || authored.value is Vec3f || authored.value is Vec3d
            || authored.value is Vec4f || authored.value is Vec4d) ==> authored_slot(
            materialx_type,
            authored,
        ) is Err,
{
}

/// The pieces of a default are all float literals exactly where none is named
/// as bad, and the one that is named is the first that is not.
pub proof fn bad_pieces_are_named(parts: Seq<Seq<char>>)
    ensures
        first_bad(parts) is None <==> forall|k: int|
            0 <= k < parts.len() ==> is_float(trimmed(#[trigger] parts[k])),
        first_bad(parts) matches Some(bad) ==> exists|k: int|
            0 <= k < parts.len() && bad == trimmed(#[trigger] parts[k]) && !is_float(bad) && forall|
                j: int,
            |
                0 <= j < k ==> is_float(trimmed(#[trigger] parts[j])),
    decreases parts.len(),
{
    if parts.len() > 0 {
        let rest = parts.skip(1);
        bad_pieces_are_named(rest);
        if is_float(trimmed(parts[0])) {
            if let Some(bad) = first_bad(rest) {
                let k = choose|k: int|
                    0 <= k < rest.len() && bad == trimmed(#[trigger] rest[k]) && !is_float(bad)
                        && forall|j: int|
                        0 <= j < k ==> is_float(trimmed(#[trigger] rest[j]));
                assert(parts[k + 1] == rest[k]);
                assert forall|j: int| 0 <= j < k + 1 implies is_float(
                    trimmed(#[trigger] parts[j]),
                ) by {
                    if j > 0 {
                        assert(rest[j - 1] == parts[j]);
                    }
                }
            } else {
                assert forall|k: int| 0 <= k < parts.len() implies is_float(
                    trimmed(#[trigger] parts[k]),
                ) by {
                    if k > 0 {
                        assert(rest[k - 1] == parts[k]);
                    }
                }
            }
        } else {
            assert(first_bad(parts) == Some(trimmed(parts[0])));
        }
    }
}

/// A default of as many float literals as its type has components, separated by
/// commas, fills the lanes with these literals in order; with another number of
/// literals, or a piece that is none, it is refused.
pub proof fn defaults_fill_their_lanes(materialx_type: Seq<char>, value: Seq<char>)
    requires
        materialx_type != "boolean"@,
    ensures
        ({
            let parts = split_on(value, ',');
            let all_floats = forall|k: int|
                0 <= k < parts.len() ==> is_float(trimmed(#[trigger] parts[k]));
            &&& components(materialx_type) is None ==> default_slot(materialx_type, value) is Err
            &&& components(materialx_type) is Some ==> (default_slot(materialx_type, value) is Ok
                <==> all_floats && Some(parts.len()) == components(materialx_type))
            &&& default_slot(materialx_type, value) matches Ok(slot) ==> parts.len() <= 4 && fills(
                slot,
                parts.map_values(|p: Seq<char>| LaneView::Literal(trimmed(p))),
            )
        }),
{
    bad_pieces_are_named(split_on(value, ','));
}

/// A boolean default is one for `true` and `1`, and zero for anything else.
pub proof fn boolean_defaults_are_one_or_zero(value: Seq<char>)
    ensures
        default_slot("boolean"@, value) matches Ok(slot) && (trimmed(value) == "true"@ || trimmed(
            value,
        ) == "1"@ ==> fills(slot, seq![LaneView::Bits32(0x3f80_0000)])) && (trimmed(value)
            != "true"@ && trimmed(value) != "1"@ ==> fills(slot, seq![LaneView::Bits32(0)])),
{
}

/// The names of the address modes and of the filter, in any case; an unknown
/// address mode clamps and an unknown filter is linear.
pub proof fn samplers_follow_their_names(texture: TextureView)
    ensures
        sampling_of(texture).u == address_mode_of(texture.u_address_mode),
        sampling_of(texture).v == address_mode_of(texture.v_address_mode),
        sampling_of(texture).filter == FilterMode::Nearest <==> same_ignoring_case(
            texture.filter_type,
            "closest"@,
        ),
        address_mode_of(texture.u_address_mode) == AddressMode::Repeat <==> same_ignoring_case(
            texture.u_address_mode,
            "periodic"@,
        ) || same_ignoring_case(texture.u_address_mode, "repeat"@),
        address_mode_of(texture.u_address_mode) == AddressMode::MirrorRepeat ==> same_ignoring_case(
            texture.u_address_mode,
            "mirror"@,
        ) || same_ignoring_case(texture.u_address_mode, "mirror_repeat"@),
        address_mode_of(texture.u_address_mode) == AddressMode::ClampToEdge ==> !same_ignoring_case(
            texture.u_address_mode,
            "mirror"@,
        ) && !same_ignoring_case(texture.u_address_mode, "mirror_repeat"@),
{
}

/// The uniform block has 64 slots: the compiled values in order and zeros after
/// them. The texture slots take the first four textures in order.
pub proof fn blocks_hold_values_then_zeros(
    uniforms: Seq<SlotView>,
    textures: Seq<TextureView>,
    i: int,
)
    ensures
        uniform_block(uniforms).len() == 64,
        0 <= i < 64 && i < uniforms.len() ==> uniform_block(uniforms)[i] == uniforms[i],
        uniforms.len() <= i < 64 ==> fills(uniform_block(uniforms)[i], Seq::empty()),
        slotted_textures(textures).len() <= 4,
        0 <= i < 4 && i < textures.len() ==> i < slotted_textures(textures).len()
            && slotted_textures(textures)[i] == textures[i],
        textures.len() <= 4 ==> slotted_textures(textures).len() == textures.len(),
        textures.len() > 4 ==> slotted_textures(textures).len() == 4,
{
}

/// An error and a warning carry what they were made of, and differ in their
/// severity alone. A texture that cannot be loaded is an error about a missing
/// asset, at the path of the texture.
pub proof fn diagnostics_say_what_they_were_given(
    code: DiagnosticCode,
    material: Seq<char>,
    node: Option<Seq<char>>,
    property: Option<Seq<char>>,
    message: Seq<char>,
)
    ensures
        ({
            let e = error_view(code, material, node, property, message);
            let w = warning_view(code, material, node, property, message);
            &&& e.severity == Severity::Error && w.severity == Severity::Warning
            &&& e.code == code && w.code == code
            &&& e.material == material && w.material == material
            &&& e.node == node && w.node == node
            &&& e.property == property && w.property == property
            &&& e.message == message && w.message == message
        }),
        texture_problem(material, message, message).severity == Severity::Error,
        texture_problem(material, message, material).property == Some(message),
        texture_problem(material, message, material).message == material,
        texture_problem(material, message, material).material == material,
        texture_problem(material, message, material).code == DiagnosticCode::MissingAsset,
{
}

/// The line of a diagnostic starts with the material, the code and the message,
/// then tells the node and the property, each only where there is one.
pub proof fn lines_tell_the_whole_diagnostic(d: DiagnosticView)
    ensures
        (d.material + ": "@ + code_text(d.code) + ": "@ + d.message).is_prefix_of(
            diagnostic_text(d),
        ),
        d.node is None && d.property is None ==> diagnostic_text(d) == d.material + ": "@
            + code_text(d.code) + ": "@ + d.message,
        d.node is Some && d.property is None ==> diagnostic_text(d) == d.material + ": "@
            + code_text(d.code) + ": "@ + d.message + (" [node "@ + d.node->0 + "]"@),
        d.node is None && d.property is Some ==> diagnostic_text(d) == d.material + ": "@
            + code_text(d.code) + ": "@ + d.message + (" [property "@ + d.property->0 + "]"@),
        d.node is Some && d.property is Some ==> diagnostic_text(d) == d.material + ": "@
            + code_text(d.code) + ": "@ + d.message + (" [node "@ + d.node->0 + "]"@) + (
        " [property "@ + d.property->0 + "]"@),
{
    let head = d.material + ": "@ + code_text(d.code) + ": "@ + d.message;
    let node = location_text(" [node "@, d.node);
    let property = location_text(" [property "@, d.property);
    assert(diagnostic_text(d) =~= head + (node + property));
    assert(head =~= diagnostic_text(d).subrange(0, head.len() as int));
    assert(head + Seq::<char>::empty() =~= head);
    assert(head + Seq::<char>::empty() + Seq::<char>::empty() =~= head);
    assert(head + node + Seq::<char>::empty() =~= head + node);
}

/// The history keeps the newest items: all of them up to the capacity, and the
/// last ones in order beyond it.
pub proof fn histories_keep_the_last_items<T>(all: Seq<T>, capacity: nat, i: int)
    ensures
        all.len() <= capacity ==> newest(all, capacity) == all,
        all.len() > capacity ==> newest(all, capacity).len() == capacity,
        all.len() > capacity && 0 <= i < capacity ==> newest(all, capacity)[i] == all[all.len()
            - capacity + i],
{
}

/// The Standard Surface node has the eight inputs that are lowered, each with
/// the type and default of the MaterialX library.
pub proof fn standard_surface_has_its_interface()
    ensures
        ({
            let node = standard_surface_node();
            &&& node.nodedef == "ND_standard_surface_surfaceshader"@
            &&& node.inputs.len() == 8
            &&& node.inputs.contains(host_port("base"@, "float"@, "f32"@, "1.0"@))
            &&& node.inputs.contains(host_port("base_color"@, "color3"@, "vec3f"@, "0.8, 0.8, 0.8"@))
            &&& node.inputs.contains(host_port("metalness"@, "float"@, "f32"@, "0.0"@))
            &&& node.inputs.contains(host_port("specular_roughness"@, "float"@, "f32"@, "0.2"@))
            &&& node.inputs.contains(host_port("emission"@, "float"@, "f32"@, "0.0"@))
            &&& node.inputs.contains(
                host_port("emission_color"@, "color3"@, "vec3f"@, "1.0, 1.0, 1.0"@),
            )
            &&& node.inputs.contains(host_port("opacity"@, "color3"@, "vec3f"@, "1.0, 1.0, 1.0"@))
            &&& node.inputs.contains(host_port("normal"@, "vector3"@, "vec3f"@, "0.0, 0.0, 1.0"@))
            &&& !is_callable(node)
        }),
{
    let list = standard_surface_node().inputs;
    assert(list[0] == host_port("base"@, "float"@, "f32"@, "1.0"@));
    assert(list[1] == host_port("base_color"@, "color3"@, "vec3f"@, "0.8, 0.8, 0.8"@));
    assert(list[2] == host_port("metalness"@, "float"@, "f32"@, "0.0"@));
    assert(list[3] == host_port("specular_roughness"@, "float"@, "f32"@, "0.2"@));
    assert(list[4] == host_port("emission"@, "float"@, "f32"@, "0.0"@));
    assert(list[5] == host_port("emission_color"@, "color3"@, "vec3f"@, "1.0, 1.0, 1.0"@));
    assert(list[6] == host_port("opacity"@, "color3"@, "vec3f"@, "1.0, 1.0, 1.0"@));
    assert(list[7] == host_port("normal"@, "vector3"@, "vec3f"@, "0.0, 0.0, 1.0"@));
    reveal_strlit("host_pbr");
    reveal_strlit("translated");
    reveal_strlit("composed");
    assert("host_pbr"@[0] == 'h' && "translated"@[0] == 't' && "composed"@[0] == 'c');
}

/// A descriptor is found by its name, the last where several have it; none is
/// found only where no descriptor has it.
pub proof fn the_last_descriptor_with_the_name_is_found(
    nodes: Seq<CoverageView>,
    nodedef: Seq<char>,
)
    ensures
        find_node(nodes, nodedef) matches Some(node) ==> exists|k: int|
            0 <= k < nodes.len() && #[trigger] nodes[k] == node && node.nodedef == nodedef && forall|
                j: int,
            |
                k < j < nodes.len() ==> (#[trigger] nodes[j]).nodedef != nodedef,
        find_node(nodes, nodedef) is None ==> forall|k: int|
            0 <= k < nodes.len() ==> (#[trigger] nodes[k]).nodedef != nodedef,
    decreases nodes.len(),
{
    if nodes.len() > 0 {
        let front = nodes.drop_last();
        the_last_descriptor_with_the_name_is_found(front, nodedef);
        if nodes.last().nodedef == nodedef {
            assert(nodes[nodes.len() - 1] == nodes.last());
        } else {
            if let Some(node) = find_node(front, nodedef) {
                let k = choose|k: int|
                    0 <= k < front.len() && #[trigger] front[k] == node && node.nodedef == nodedef
                        && forall|j: int|
                        k < j < front.len() ==> (#[trigger] front[j]).nodedef != nodedef;
                assert(nodes[k] == node);
                assert forall|j: int| k < j < nodes.len() implies (#[trigger] nodes[j]).nodedef
                    != nodedef by {
                    if j < front.len() {
                        assert(front[j] == nodes[j]);
                    }
                }
            } else {
                assert forall|k: int| 0 <= k < nodes.len() implies (#[trigger] nodes[k]).nodedef
                    != nodedef by {
                    if k < front.len() {
                        assert(front[k] == nodes[k]);
                    }
                }
            }
        }
    }
}

/// A slot, a texture and a lowered surface are seen field by field.
pub proof fn parts_are_seen_field_by_field(
    slot: Slot,
    texture: CompiledTexture,
    surface: SurfaceExpressions,
)
    ensures
        slot@.x == slot.x@ && slot@.y == slot.y@ && slot@.z == slot.z@ && slot@.w == slot.w@,
        texture@.path == texture.path@,
        texture@.is_srgb == texture.is_srgb,
        texture@.u_address_mode == texture.u_address_mode@,
        texture@.v_address_mode == texture.v_address_mode@,
        texture@.filter_type == texture.filter_type@,
        surface@.base_color == surface.base_color@,
        surface@.metalness == surface.metalness@,
        surface@.roughness == surface.roughness@,
        surface@.emission == surface.emission@,
        surface@.opacity == surface.opacity@,
        surface.normal matches Some(code) ==> surface@.normal == Some(code@),
        surface.normal is None ==> surface@.normal is None,
        surface@.alpha_blend == surface.alpha_blend,
{
}

/// A lane keeps the kind of its number.
pub proof fn lanes_keep_their_kind(lane: Lane)
    ensures
        lane matches Lane::Bits32(b) ==> lane@ == LaneView::Bits32(b),
        lane matches Lane::Bits64(b) ==> lane@ == LaneView::Bits64(b),
        lane matches Lane::Int(n) ==> lane@ == LaneView::Int(n),
        lane matches Lane::Literal(t) ==> lane@ == LaneView::Literal(t@),
{
}

/// A compiled material is seen field by field, its lists item by item.
pub proof fn compiled_materials_are_seen_field_by_field(c: CompiledMaterialX, i: int)
    ensures
        c@.material == c.material@,
        c@.wesl == c.wesl@,
        c@.uniforms.len() == c.uniforms@.len(),
        0 <= i < c.uniforms@.len() ==> c@.uniforms[i] == c.uniforms@[i]@,
        c@.textures.len() == c.textures@.len(),
        0 <= i < c.textures@.len() ==> c@.textures[i] == c.textures@[i]@,
        c@.alpha_blend == c.alpha_blend,
        c@.transmission == c.transmission,
        c@.required_modules.len() == c.required_modules@.len(),
        0 <= i < c.required_modules@.len() ==> c@.required_modules[i] == c.required_modules@[i]@,
        c@.diagnostics.len() == c.diagnostics@.len(),
        0 <= i < c.diagnostics@.len() ==> c@.diagnostics[i] == c.diagnostics@[i]@,
        compile_result(Ok(c)) == Ok::<CompiledView, Seq<DiagnosticView>>(c@),
{
}

/// A failure is seen by its diagnostics, each field by field. Its line is that
/// of the first.
pub proof fn failures_are_seen_field_by_field(f: CompileFailure, i: int)
    requires
        0 <= i < f.diagnostics@.len(),
    ensures
        compile_result(Err(f)) matches Err(list) && list.len() == f.diagnostics@.len() && list[i]
            == f.diagnostics@[i]@,
        failure_text(f.diagnostics@) == diagnostic_text(f.diagnostics@[0]@),
        failure_text(Seq::empty()) == "MaterialX compilation failed"@,
        ({
            let d = f.diagnostics@[i];
            &&& d@.severity == d.severity
            &&& d@.code == d.code
            &&& d@.material == d.material@
            &&& d@.node == opt_view(d.node)
            &&& d@.property == opt_view(d.property)
            &&& d@.message == d.message@
        }),
{
}

/// A descriptor and its ports are seen field by field.
pub proof fn descriptors_are_seen_field_by_field(c: Coverage, p: Port, i: int)
    ensures
        c@.nodedef == c.nodedef@,
        c@.node == c.node@,
        c@.node_group == c.node_group@,
        c@.source_kind == c.source_kind@,
        c@.source == opt_view(c.source),
        c@.symbol == opt_view(c.symbol),
        c@.module == opt_view(c.module),
        c@.status == c.status@,
        c@.reason == opt_view(c.reason),
        c@.inputs.len() == c.inputs@.len(),
        0 <= i < c.inputs@.len() ==> c@.inputs[i] == c.inputs@[i]@,
        c@.outputs.len() == c.outputs@.len(),
        0 <= i < c.outputs@.len() ==> c@.outputs[i] == c.outputs@[i]@,
        p@.name == p.name@,
        p@.materialx_type == p.materialx_type@,
        p@.wesl_type == opt_view(p.wesl_type),
        p@.default_value == opt_view(p.default_value),
        p@.uniform == p.uniform,
        is_callable(c@) <==> c.status@ == "translated"@ || c.status@ == "composed"@,
{
}

/// In a complete registry a descriptor that may be called names a bundled
/// module of that name whose source defines the function.
pub proof fn callable_descriptors_are_defined(
    modules: Seq<TranslatorModule>,
    node: CoverageView,
)
    requires
        is_bundled(modules, node),
        node.status == "translated"@ || node.status == "composed"@,
    ensures
        node.module is Some,
        node.symbol is Some,
        exists|j: int|
            0 <= j < modules.len() && (#[trigger] modules[j]).module@ == node.module->0 && occurs(
                modules[j].source@,
                "fn "@ + node.symbol->0 + "("@,
            ),
{
    let j = choose|j: int|
        0 <= j < modules.len() && defines(
            #[trigger] modules[j],
            node.module->0,
            node.symbol->0,
        );
    assert(modules[j].module@ == node.module->0);
}

/// Graphs have their own asset paths.
pub proof fn graphs_have_their_own_path(a: u64, b: u64)
    ensures
        graph_asset_path(a) == graph_asset_path(b) ==> a == b,
        ("embedded://usd_bevy/materialx/graph_"@).is_prefix_of(graph_asset_path(a)),
        graph_asset_path(a).len() == "embedded://usd_bevy/materialx/graph_"@.len() + 16
            + ".wesl"@.len(),
{
    let head = "embedded://usd_bevy/materialx/graph_"@;
    let n = head.len() as int;
    keys_have_their_own_digits(a, b);
    keys_have_their_own_digits(b, a);
    assert(graph_asset_path(a).subrange(n, n + 16) =~= hex(a as nat, 16));
    assert(graph_asset_path(b).subrange(n, n + 16) =~= hex(b as nat, 16));
    assert(head =~= graph_asset_path(a).subrange(0, n));
}

proof fn digits_run_to_the_end(s: Seq<char>, from: int, to: int)
    requires
        0 <= from <= to <= s.len(),
        forall|k: int| from <= k < to ==> is_digit(#[trigger] s[k]),
        to < s.len() ==> !is_digit(s[to]),
    ensures
        digits_end(s, from) == to,
    decreases to - from,
{
    if from < to {
        digits_run_to_the_end(s, from + 1, to);
    }
}

/// Whole numbers, with or without a sign, are float literals, and so are
/// numbers with a dot; an empty text and a sign alone are none.
pub proof fn numbers_are_float_literals(whole: Seq<char>, part: Seq<char>)
    requires
        whole.len() > 0,
        forall|k: int| 0 <= k < whole.len() ==> is_digit(#[trigger] whole[k]),
        forall|k: int| 0 <= k < part.len() ==> is_digit(#[trigger] part[k]),
    ensures
        is_float(whole),
        is_float(seq!['-'] + whole),
        is_float(seq!['+'] + whole),
        is_float(whole + seq!['.'] + part),
        is_float(seq!['-'] + (whole + seq!['.'] + part)),
        !is_float(Seq::empty()),
        !is_float(seq!['-']),
{
    digits_run_to_the_end(whole, 0, whole.len() as int);
    assert(is_number(whole, 0));
    let minus = seq!['-'] + whole;
    assert forall|k: int| 1 <= k < minus.len() implies is_digit(#[trigger] minus[k]) by {
        assert(minus[k] == whole[k - 1]);
    }
    digits_run_to_the_end(minus, 1, minus.len() as int);
    assert(is_number(minus, 1));
    let plus = seq!['+'] + whole;
    assert forall|k: int| 1 <= k < plus.len() implies is_digit(#[trigger] plus[k]) by {
        assert(plus[k] == whole[k - 1]);
    }
    digits_run_to_the_end(plus, 1, plus.len() as int);
    assert(is_number(plus, 1));
    let dotted = whole + seq!['.'] + part;
    let n = whole.len() as int;
    assert forall|k: int| 0 <= k < n implies is_digit(#[trigger] dotted[k]) by {
        assert(dotted[k] == whole[k]);
    }
    assert(dotted[n] == '.');
    assert forall|k: int| n + 1 <= k < dotted.len() implies is_digit(#[trigger] dotted[k]) by {
        assert(dotted[k] == part[k - n - 1]);
    }
    digits_run_to_the_end(dotted, 0, n);
    digits_run_to_the_end(dotted, n + 1, dotted.len() as int);
    assert(is_number(dotted, 0));
    let signed = seq!['-'] + dotted;
    assert forall|k: int| 1 <= k < n + 1 implies is_digit(#[trigger] signed[k]) by {
        assert(signed[k] == dotted[k - 1]);
    }
    assert(signed[n + 1] == '.');
    assert forall|k: int| n + 2 <= k < signed.len() implies is_digit(#[trigger] signed[k]) by {
        assert(signed[k] == dotted[k - 1]);
    }
    digits_run_to_the_end(signed, 1, n + 1);
    digits_run_to_the_end(signed, n + 2, signed.len() as int);
    assert(is_number(signed, 1));
    reveal_strlit("inf");
    reveal_strlit("infinity");
    reveal_strlit("nan");
    digits_run_to_the_end(Seq::empty(), 0, 0);
    digits_run_to_the_end(seq!['-'], 1, 1);
}

/// A number may end in an exponent of digits, and an exponent without digits
/// makes it no literal.
pub proof fn exponents_need_digits(whole: Seq<char>, power: Seq<char>)
    requires
        whole.len() > 0,
        forall|k: int| 0 <= k < whole.len() ==> is_digit(#[trigger] whole[k]),
        forall|k: int| 0 <= k < power.len() ==> is_digit(#[trigger] power[k]),
    ensures
        power.len() > 0 ==> is_float(whole + seq!['e'] + power),
        power.len() > 0 ==> is_float(whole + seq!['E'] + power),
        !is_float(whole + seq!['e']),
{
    reveal_strlit("inf");
    reveal_strlit("infinity");
    reveal_strlit("nan");
    reveal_strlit("INF");
    reveal_strlit("INFINITY");
    reveal_strlit("NAN");
    let n = whole.len() as int;
    let small = whole + seq!['e'] + power;
    let large = whole + seq!['E'] + power;
    assert forall|k: int| 0 <= k < n implies is_digit(#[trigger] small[k]) by {
        assert(small[k] == whole[k]);
    }
    assert forall|k: int| n + 1 <= k < small.len() implies is_digit(#[trigger] small[k]) by {
        assert(small[k] == power[k - n - 1]);
    }
    assert forall|k: int| 0 <= k < n implies is_digit(#[trigger] large[k]) by {
        assert(large[k] == whole[k]);
    }
    assert forall|k: int| n + 1 <= k < large.len() implies is_digit(#[trigger] large[k]) by {
        assert(large[k] == power[k - n - 1]);
    }
    assert(small[n] == 'e' && large[n] == 'E');
    digits_run_to_the_end(small, 0, n);
    digits_run_to_the_end(small, n + 1, small.len() as int);
    digits_run_to_the_end(large, 0, n);
    digits_run_to_the_end(large, n + 1, large.len() as int);
    if power.len() > 0 {
        assert(small[n + 1] == power[0] && is_digit(power[0]));
        assert(large[n + 1] == power[0]);
        assert(is_number(small, 0));
        assert(is_number(large, 0));
    }
    let cut = whole + seq!['e'];
    assert forall|k: int| 0 <= k < n implies is_digit(#[trigger] cut[k]) by {
        assert(cut[k] == whole[k]);
    }
    assert(cut[n] == 'e');
    digits_run_to_the_end(cut, 0, n);
    assert(is_digit(cut[0]));
    assert(!is_number(cut, 0));
    assert(cut[0int + 0int] == cut[0]);
    if is_word(cut, 0, "inf"@, "INF"@) {
        assert(cut[0int + 0int] == "inf"@[0] || cut[0int + 0int] == "INF"@[0]);
    }
    if is_word(cut, 0, "infinity"@, "INFINITY"@) {
        assert(cut[0int + 0int] == "infinity"@[0] || cut[0int + 0int] == "INFINITY"@[0]);
    }
    if is_word(cut, 0, "nan"@, "NAN"@) {
        assert(cut[0int + 0int] == "nan"@[0] || cut[0int + 0int] == "NAN"@[0]);
    }
}

/// A texture is decoded from its own bytes, by its own extension, in its own
/// colour space and with the sampler that its own settings ask for.
pub proof fn textures_are_decoded_with_their_settings(
    texture: TextureView,
    bytes: Seq<u8>,
    extension: Seq<char>,
    image: bevy::image::Image,
    message: String,
)
    ensures
        decodes_texture(texture, bytes, extension, Ok(image)) <==> decoding_ends(
            bytes,
            extension,
            texture.is_srgb,
            Sampling {
                u: address_mode_of(texture.u_address_mode),
                v: address_mode_of(texture.v_address_mode),
                filter: if same_ignoring_case(texture.filter_type, "closest"@) {
                    FilterMode::Nearest
                } else {
                    FilterMode::Linear
                },
            },
            Ok(image),
        ),
        decodes_texture(texture, bytes, extension, Err(message)) ==> exists|error: Seq<char>|
            message@ == "cannot decode texture: "@ + error && #[trigger] decoding_ends(
                bytes,
                extension,
                texture.is_srgb,
                sampling_of(texture),
                Err(error),
            ),
{
    if decodes_texture(texture, bytes, extension, Err(message)) {
        let error = choose|error: Seq<char>| #[trigger]
            fails_with(texture, bytes, extension, error) && message@ == "cannot decode texture: "@
                + error;
        assert(decoding_ends(
            bytes,
            extension,
            texture.is_srgb,
            sampling_of(texture),
            Err::<bevy::image::Image, Seq<char>>(error),
        ));
    }
}

/// A module's identity is made of a hash of its name under the prefix of all
/// modules, a graph's of its key under the prefix of all graphs.
pub proof fn identities_are_made_of_their_hash(hash: u64)
    ensures
        module_identity(hash) == 0x4d58_5745_534c_4d4f_0000_0000_0000_0000u128 + hash,
        graph_identity(hash) == 0x4d58_4752_4150_4853_0000_0000_0000_0000u128 + hash,
{
}

/// A code is printed by its own name.
pub proof fn codes_are_printed_by_name(code: DiagnosticCode)
    ensures
        code is InvalidDocument ==> code_text(code) == "InvalidDocument"@,
        code is MissingMaterial ==> code_text(code) == "MissingMaterial"@,
        code is AmbiguousMaterial ==> code_text(code) == "AmbiguousMaterial"@,
        code is MissingTerminal ==> code_text(code) == "MissingTerminal"@,
        code is AmbiguousConnection ==> code_text(code) == "AmbiguousConnection"@,
        code is InvalidConnection ==> code_text(code) == "InvalidConnection"@,
        code is ConnectionCycle ==> code_text(code) == "ConnectionCycle"@,
        code is UnknownNodeDef ==> code_text(code) == "UnknownNodeDef"@,
        code is UnsupportedImplementation ==> code_text(code) == "UnsupportedImplementation"@,
        code is UnknownOutput ==> code_text(code) == "UnknownOutput"@,
        code is MissingValue ==> code_text(code) == "MissingValue"@,
        code is TypeMismatch ==> code_text(code) == "TypeMismatch"@,
        code is UnsupportedFeature ==> code_text(code) == "UnsupportedFeature"@,
        code is MissingAsset ==> code_text(code) == "MissingAsset"@,
        code is ResourceLimit ==> code_text(code) == "ResourceLimit"@,
{
}

/// Why a default is refused is told with its type, the default itself and the
/// numbers of components that do not agree.
pub proof fn refused_defaults_tell_why(materialx_type: Seq<char>, value: Seq<char>, expected: nat)
    requires
        materialx_type != "boolean"@,
        components(materialx_type) == Some(expected),
    ensures
        ({
            let parts = split_on(value, ',');
            &&& first_bad(parts) is None && parts.len() != expected ==> default_slot(
                materialx_type,
                value,
            ) == Err::<SlotView, Seq<char>>(
                materialx_type + " default expects "@ + decimal(expected) + " component(s), got "@
                    + decimal(parts.len()) + " in "@ + quoted(value),
            )
            &&& first_bad(parts) matches Some(bad) ==> (default_slot(
                materialx_type,
                value,
            ) matches Err(message) && ("invalid "@ + materialx_type + " default "@ + quoted(
                value,
            )).is_prefix_of(message))
        }),
{
    if let Some(bad) = first_bad(split_on(value, ',')) {
        let head = "invalid "@ + materialx_type + " default "@ + quoted(value);
        let message = default_slot(materialx_type, value)->Err_0;
        assert(head =~= message.subrange(0, head.len() as int));
    }
}

/// A port of the host has the name, types and default it is made of, and is no
/// uniform of the library; Standard Surface has one output.
pub proof fn host_ports_are_what_they_are_made_of(
    name: Seq<char>,
    materialx_type: Seq<char>,
    wesl_type: Seq<char>,
    default_value: Seq<char>,
)
    ensures
        ({
            let port = host_port(name, materialx_type, wesl_type, default_value);
            &&& port.name == name
            &&& port.materialx_type == materialx_type
            &&& port.wesl_type == Some(wesl_type)
            &&& port.default_value == Some(default_value)
            &&& !port.uniform
        }),
        ({
            let node = standard_surface_node();
            &&& node.outputs.len() == 1
            &&& node.outputs[0].name == "out"@
            &&& node.outputs[0].materialx_type == "surfaceshader"@
            &&& node.outputs[0].wesl_type is None
            &&& node.symbol is None && node.module is None
            &&& node.status == "host_pbr"@
            &&& node.source_kind == "host"@
            &&& node.node == "standard_surface"@
            &&& node.node_group == "pbr"@
        }),
{
}

} // verus!
