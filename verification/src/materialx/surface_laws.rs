//! What every field of a lowered Standard Surface stands for: each is made of
//! the inputs that carry its name, and each input of what it is connected to
//! or of the value it holds.

use super::compiler::sources_are_connected;
use super::diagnostic::DiagnosticView;
use super::emit::{root_text, SurfaceView};
use super::graph::{
    compiled, lower_constant, lower_input, lower_ports, lower_source, lower_surface, no_work,
    required_port, slot_code, sources_of, surface_inputs, surface_output, terminal, ExpressionView,
    Graph, Work,
};
use super::laws::{follows, input_keeps};
use super::registry::{find_node, find_port, CoverageView, PortView};
use super::value::{authored_slot, default_slot, LaneView, SlotView};
use crate::path::{appended, owning_prim};
use crate::stage::Value;
use crate::text::decimal;
use vstd::prelude::*;

verus! {

/// The slot holds the value of an unconnected input: the authored one, else
/// the default of its port.
pub open spec fn holds_value(
    g: Graph,
    prim: Seq<char>,
    name: Seq<char>,
    port: PortView,
    slot: SlotView,
) -> bool {
    match g.stage.timed_value(prim, "inputs:"@ + name) {
        Ok(Some(authored)) => authored_slot(port.materialx_type, authored) == Ok::<
            SlotView,
            Seq<char>,
        >(slot),
        Ok(None) => port.default_value is Some && default_slot(
            port.materialx_type,
            port.default_value->0,
        ) == Ok::<SlotView, Seq<char>>(slot),
        Err(_) => false,
    }
}

/// The composed sources of the input `name` of a prim.
pub open spec fn input_sources(g: Graph, prim: Seq<char>, name: Seq<char>) -> Seq<Seq<char>> {
    sources_of(g, appended(prim, "inputs:"@ + name)->Ok_0)->Ok_0
}

/// `code` is the value of the input `name` of `prim`. Where the input is
/// connected, it is the expression of its one source; where it is not, it
/// reads a uniform slot that holds its authored value or its default.
pub open spec fn drives(
    g: Graph,
    w: Work,
    prim: Seq<char>,
    name: Seq<char>,
    port: PortView,
    code: Seq<char>,
) -> bool {
    &&& appended(prim, "inputs:"@ + name) is Ok
    &&& sources_of(g, appended(prim, "inputs:"@ + name)->Ok_0) is Ok
    &&& input_sources(g, prim, name).len() <= 1
    &&& input_sources(g, prim, name).len() == 1 ==> {
        &&& w.memo.contains_key(input_sources(g, prim, name)[0])
        &&& w.memo[input_sources(g, prim, name)[0]].code == code
        &&& w.memo[input_sources(g, prim, name)[0]].materialx_type == port.materialx_type
    }
    &&& input_sources(g, prim, name).len() == 0 ==> exists|i: int|
        0 <= i < w.uniforms.len() && slot_code(i as nat, port.materialx_type) == Some(code)
            && holds_value(g, prim, name, port, #[trigger] w.uniforms[i])
}

/// The input `name` of `prim` is connected or has an authored value.
pub open spec fn is_active(g: Graph, prim: Seq<char>, name: Seq<char>) -> bool {
    input_sources(g, prim, name).len() > 0 || g.stage.timed_value(prim, "inputs:"@ + name) matches
        Ok(Some(_))
}

/// A port that is found is the first with the name that was asked for; none is
/// found only where no port has it.
pub proof fn found_ports_have_the_name(ports: Seq<PortView>, name: Seq<char>)
    ensures
        find_port(ports, name) matches Some(port) ==> port.name == name && exists|k: int|
            0 <= k < ports.len() && #[trigger] ports[k] == port && forall|j: int|
                0 <= j < k ==> (#[trigger] ports[j]).name != name,
        find_port(ports, name) is None <==> forall|k: int|
            0 <= k < ports.len() ==> (#[trigger] ports[k]).name != name,
    decreases ports.len(),
{
    if ports.len() > 0 {
        let rest = ports.skip(1);
        found_ports_have_the_name(rest, name);
        if ports[0].name != name {
            if let Some(port) = find_port(ports, name) {
                let k = choose|k: int|
                    0 <= k < rest.len() && #[trigger] rest[k] == port && forall|j: int|
                        0 <= j < k ==> (#[trigger] rest[j]).name != name;
                assert(ports[k + 1] == port);
                assert forall|j: int| 0 <= j < k + 1 implies (#[trigger] ports[j]).name != name by {
                    if j > 0 {
                        assert(rest[j - 1] == ports[j]);
                    }
                }
            } else {
                assert forall|k: int| 0 <= k < ports.len() implies (#[trigger] ports[k]).name
                    != name by {
                    if k > 0 {
                        assert(rest[k - 1] == ports[k]);
                    }
                }
            }
            if forall|k: int| 0 <= k < ports.len() ==> (#[trigger] ports[k]).name != name {
                assert forall|k: int| 0 <= k < rest.len() implies (#[trigger] rest[k]).name != name by {
                    assert(rest[k] == ports[k + 1]);
                }
            }
        } else {
            assert(ports[0] == find_port(ports, name)->0);
        }
    }
}

/// More lowering does not change what an input is.
pub proof fn driving_lasts(
    g: Graph,
    a: Work,
    b: Work,
    prim: Seq<char>,
    name: Seq<char>,
    port: PortView,
    code: Seq<char>,
)
    requires
        follows(a, b),
        drives(g, a, prim, name, port, code),
    ensures
        drives(g, b, prim, name, port, code),
{
    if input_sources(g, prim, name).len() == 0 {
        let i = choose|i: int|
            0 <= i < a.uniforms.len() && slot_code(i as nat, port.materialx_type) == Some(code)
                && holds_value(g, prim, name, port, #[trigger] a.uniforms[i]);
        assert(b.uniforms[i] == a.uniforms[i]);
    }
}

/// A lowered input has the expression of its one source, or reads a slot that
/// holds its own value; it counts as active where it is connected or authored.
pub proof fn inputs_are_driven(
    g: Graph,
    visiting: Set<Seq<char>>,
    w: Work,
    prim: Seq<char>,
    port: PortView,
)
    ensures
        lower_input(g, visiting, w, prim, port) matches Ok((w1, e, active)) ==> drives(
            g,
            w1,
            prim,
            port.name,
            port,
            e.code,
        ) && active == is_active(g, prim, port.name) && e.materialx_type == port.materialx_type,
{
    if let Ok((w1, e, active)) = lower_input(g, visiting, w, prim, port) {
        let attribute = appended(prim, "inputs:"@ + port.name)->Ok_0;
        let sources = sources_of(g, attribute)->Ok_0;
        if sources.len() == 1 {
            sources_are_connected(g, attribute, 0);
            let source = sources[0];
            assert(lower_source(g, visiting, w, source) is Ok);
        } else {
            assert(lower_constant(g, w, prim, port, attribute) == Ok::<
                (Work, ExpressionView, bool),
                DiagnosticView,
            >((w1, e, active)));
            let i = w.uniforms.len() as int;
            assert(slot_code(i as nat, port.materialx_type) == Some(e.code));
            assert(holds_value(g, prim, port.name, port, w1.uniforms[i]));
        }
    }
}

/// Every lowered input of a list is driven by the input that carries its name,
/// in the work that the whole list ends with.
pub proof fn named_inputs_are_driven(
    g: Graph,
    w: Work,
    prim: Seq<char>,
    node: CoverageView,
    names: Seq<Seq<char>>,
    count: nat,
)
    requires
        count <= names.len(),
    ensures
        lower_ports(g, w, prim, node, names, count) matches Ok((w1, done)) ==> done.len() == count
            && forall|k: int|
            0 <= k < count ==> find_port(node.inputs, #[trigger] names[k]) is Some && drives(
                g,
                w1,
                prim,
                names[k],
                find_port(node.inputs, names[k])->0,
                done[k].0.code,
            ) && done[k].1 == is_active(g, prim, names[k]),
    decreases count,
{
    if count > 0 {
        let last = (count - 1) as nat;
        named_inputs_are_driven(g, w, prim, node, names, last);
        if let Ok((w2, done2)) = lower_ports(g, w, prim, node, names, count) {
            let (w1, done) = lower_ports(g, w, prim, node, names, last)->Ok_0;
            let port = required_port(node, names[last as int])->Ok_0;
            found_ports_have_the_name(node.inputs, names[last as int]);
            inputs_are_driven(g, Set::empty(), w1, prim, port);
            input_keeps(g, Set::empty(), w1, prim, port);
            assert forall|k: int| 0 <= k < count implies find_port(
                node.inputs,
                #[trigger] names[k],
            ) is Some && drives(
                g,
                w2,
                prim,
                names[k],
                find_port(node.inputs, names[k])->0,
                done2[k].0.code,
            ) && done2[k].1 == is_active(g, prim, names[k]) by {
                if k < last {
                    assert(done2[k] == done[k]);
                    driving_lasts(
                        g,
                        w1,
                        w2,
                        prim,
                        names[k],
                        find_port(node.inputs, names[k])->0,
                        done[k].0.code,
                    );
                }
            }
        }
    }
}

/// `code` is the value of the input `name` of the surface node at `prim`.
pub open spec fn surface_input(
    g: Graph,
    w: Work,
    prim: Seq<char>,
    node: CoverageView,
    name: Seq<char>,
    code: Seq<char>,
) -> bool {
    &&& find_port(node.inputs, name) is Some
    &&& drives(g, w, prim, name, find_port(node.inputs, name)->0, code)
}

/// `product` multiplies the colour of one input by the weight of another.
pub open spec fn weighs(
    g: Graph,
    w: Work,
    prim: Seq<char>,
    node: CoverageView,
    weight: Seq<char>,
    color: Seq<char>,
    product: Seq<char>,
) -> bool {
    exists|a: Seq<char>, b: Seq<char>|
        #![trigger surface_input(g, w, prim, node, weight, a), surface_input(g, w, prim, node, color, b)]
        surface_input(g, w, prim, node, weight, a) && surface_input(g, w, prim, node, color, b)
            && product == "("@ + b + " * vec3f("@ + a + "))"@
}

/// `product` is the luminance of the colour of an input.
pub open spec fn measures(
    g: Graph,
    w: Work,
    prim: Seq<char>,
    node: CoverageView,
    color: Seq<char>,
    product: Seq<char>,
) -> bool {
    exists|a: Seq<char>|
        #[trigger] surface_input(g, w, prim, node, color, a) && product == "dot("@ + a
            + ", vec3f(0.299, 0.587, 0.114))"@
}

/// Each field of a lowered surface is made of the inputs that it is named
/// after: metalness of `metalness`, roughness of `specular_roughness`, the base
/// colour of `base_color` weighted by `base`, the emission of `emission_color`
/// weighted by `emission`, the opacity of `opacity` and the normal of `normal`.
/// The normal is set and the surface blends exactly where the `normal` and the
/// `opacity` input are connected or authored.
pub open spec fn fields_follow_inputs(
    g: Graph,
    w: Work,
    prim: Seq<char>,
    node: CoverageView,
    surface: SurfaceView,
) -> bool {
    &&& surface_input(g, w, prim, node, "metalness"@, surface.metalness)
    &&& surface_input(g, w, prim, node, "specular_roughness"@, surface.roughness)
    &&& weighs(g, w, prim, node, "base"@, "base_color"@, surface.base_color)
    &&& weighs(g, w, prim, node, "emission"@, "emission_color"@, surface.emission)
    &&& measures(g, w, prim, node, "opacity"@, surface.opacity)
    &&& surface.normal matches Some(code) ==> surface_input(g, w, prim, node, "normal"@, code)
    &&& surface.normal is Some <==> is_active(g, prim, "normal"@)
    &&& surface.alpha_blend <==> is_active(g, prim, "opacity"@)
}

/// Every field of a lowered surface follows the input it is named after.
pub proof fn surface_fields_follow_their_inputs(g: Graph, output: Seq<char>)
    requires
        lower_surface(g, output) is Ok,
    ensures
        find_node(g.nodes, "ND_standard_surface_surfaceshader"@) is Some,
        fields_follow_inputs(
            g,
            (lower_surface(g, output)->Ok_0).0,
            owning_prim(output),
            find_node(g.nodes, "ND_standard_surface_surfaceshader"@)->0,
            (lower_surface(g, output)->Ok_0).1,
        ),
{
    let prim = owning_prim(output);
    let node = find_node(g.nodes, "ND_standard_surface_surfaceshader"@)->0;
    let names = surface_inputs();
    let (w, done) = lower_ports(g, no_work(), prim, node, names, names.len())->Ok_0;
    named_inputs_are_driven(g, no_work(), prim, node, names, names.len());
    assert(names[0] == "base"@);
    assert(names[1] == "base_color"@);
    assert(names[2] == "metalness"@);
    assert(names[3] == "specular_roughness"@);
    assert(names[4] == "emission"@);
    assert(names[5] == "emission_color"@);
    assert(names[6] == "opacity"@);
    assert(names[7] == "normal"@);
    assert(surface_input(g, w, prim, node, "base"@, done[0].0.code));
    assert(surface_input(g, w, prim, node, "base_color"@, done[1].0.code));
    assert(surface_input(g, w, prim, node, "emission"@, done[4].0.code));
    assert(surface_input(g, w, prim, node, "emission_color"@, done[5].0.code));
    assert(surface_input(g, w, prim, node, "opacity"@, done[6].0.code));
}

/// The code that reads a slot takes as many of its lanes as the type has, from
/// the slot with the given number.
pub proof fn slots_are_read_by_type(index: nat, materialx_type: Seq<char>)
    ensures
        slot_code(index, "float"@) == Some("materialx.values["@ + decimal(index) + "].x"@),
        slot_code(index, "integer"@) == Some("i32(materialx.values["@ + decimal(index) + "].x)"@),
        slot_code(index, "boolean"@) == Some(
            "materialx.values["@ + decimal(index) + "].x != 0.0"@,
        ),
        slot_code(index, "vector2"@) == Some("materialx.values["@ + decimal(index) + "].xy"@),
        slot_code(index, "color3"@) == Some("materialx.values["@ + decimal(index) + "].xyz"@),
        slot_code(index, "vector3"@) == Some("materialx.values["@ + decimal(index) + "].xyz"@),
        slot_code(index, "color4"@) == Some("materialx.values["@ + decimal(index) + "]"@),
        slot_code(index, "vector4"@) == Some("materialx.values["@ + decimal(index) + "]"@),
{
    reveal_strlit("float");
    reveal_strlit("integer");
    reveal_strlit("boolean");
    reveal_strlit("vector2");
    reveal_strlit("vector3");
    reveal_strlit("vector4");
    reveal_strlit("color3");
    reveal_strlit("color4");
    assert("float"@[0] == 'f' && "integer"@[0] == 'i' && "boolean"@[0] == 'b');
    assert("vector2"@[0] == 'v' && "vector2"@[6] == '2');
    assert("vector3"@[0] == 'v' && "vector3"@[6] == '3');
    assert("vector4"@[0] == 'v' && "vector4"@[6] == '4');
    assert("color3"@[0] == 'c' && "color3"@[5] == '3');
    assert("color4"@[0] == 'c' && "color4"@[5] == '4');
    reveal_strlit("]");
    reveal_strlit(".x");
    reveal_strlit(".xy");
    reveal_strlit(".xyz");
    reveal_strlit(".x)");
    reveal_strlit(".x != 0.0");
    reveal_strlit("].x");
    reveal_strlit("].xy");
    reveal_strlit("].xyz");
    reveal_strlit("].x)");
    reveal_strlit("].x != 0.0");
    reveal_strlit("i32(");
    reveal_strlit("materialx.values[");
    reveal_strlit("i32(materialx.values[");
    let value = "materialx.values["@ + decimal(index) + "]"@;
    assert(value + ".x"@ =~= "materialx.values["@ + decimal(index) + "].x"@);
    assert(value + ".xy"@ =~= "materialx.values["@ + decimal(index) + "].xy"@);
    assert(value + ".xyz"@ =~= "materialx.values["@ + decimal(index) + "].xyz"@);
    assert(value + ".x != 0.0"@ =~= "materialx.values["@ + decimal(index) + "].x != 0.0"@);
    assert("i32("@ + value + ".x)"@ =~= "i32(materialx.values["@ + decimal(index) + "].x)"@);
}

/// An unconnected float input with an authored float reads the first lane of a
/// slot that holds exactly these bits, wherever the input is used.
pub proof fn authored_floats_are_read_back(
    g: Graph,
    w: Work,
    prim: Seq<char>,
    name: Seq<char>,
    port: PortView,
    code: Seq<char>,
    bits: u32,
)
    requires
        drives(g, w, prim, name, port, code),
        port.materialx_type == "float"@,
        input_sources(g, prim, name).len() == 0,
        g.stage.timed_value(prim, "inputs:"@ + name) matches Ok(Some(authored)) && authored.value
            == Value::Float(bits),
    ensures
        exists|i: int|
            0 <= i < w.uniforms.len() && (#[trigger] w.uniforms[i]).x == LaneView::Bits32(bits)
                && code == "materialx.values["@ + decimal(i as nat) + "].x"@,
{
    let i = choose|i: int|
        0 <= i < w.uniforms.len() && slot_code(i as nat, port.materialx_type) == Some(code)
            && holds_value(g, prim, name, port, #[trigger] w.uniforms[i]);
    slots_are_read_by_type(i as nat, port.materialx_type);
    assert(w.uniforms[i].x == LaneView::Bits32(bits));
}

/// The surface that a compiled material emits, with the work it ends with, is
/// the lowered one of its terminal: its module is the text of that surface and
/// its slots are those that the expressions read.
pub proof fn compiled_materials_emit_their_surface(g: Graph, output: Seq<char>)
    requires
        compiled(g) is Ok,
        surface_output(g, terminal(g)->Ok_0)->Ok_0 == output,
    ensures
        terminal(g) is Ok,
        lower_surface(g, output) is Ok,
        compiled(g)->Ok_0.material == g.material,
        compiled(g)->Ok_0.uniforms == (lower_surface(g, output)->Ok_0).0.uniforms,
        compiled(g)->Ok_0.textures == (lower_surface(g, output)->Ok_0).0.textures,
        compiled(g)->Ok_0.required_modules == (lower_surface(g, output)->Ok_0).0.modules,
        compiled(g)->Ok_0.alpha_blend == (lower_surface(g, output)->Ok_0).1.alpha_blend,
        !compiled(g)->Ok_0.transmission,
        compiled(g)->Ok_0.diagnostics == (lower_surface(g, output)->Ok_0).2,
        compiled(g)->Ok_0.wesl == root_text(
            (lower_surface(g, output)->Ok_0).0.imports,
            (lower_surface(g, output)->Ok_0).0.lines,
            (lower_surface(g, output)->Ok_0).1,
        ),
{
}

/// The input `name` of `prim` is unconnected, takes a float and has this float
/// authored.
pub open spec fn has_float(
    g: Graph,
    prim: Seq<char>,
    node: CoverageView,
    name: Seq<char>,
    bits: u32,
) -> bool {
    &&& input_sources(g, prim, name).len() == 0
    &&& find_port(node.inputs, name)->0.materialx_type == "float"@
    &&& g.stage.timed_value(prim, "inputs:"@ + name) matches Ok(Some(a)) && a.value
        == Value::Float(bits)
}

/// `code` reads the first lane of a slot that holds these bits.
pub open spec fn reads_float(slots: Seq<SlotView>, code: Seq<char>, bits: u32) -> bool {
    exists|i: int|
        0 <= i < slots.len() && (#[trigger] slots[i]).x == LaneView::Bits32(bits) && code
            == "materialx.values["@ + decimal(i as nat) + "].x"@
}

/// The lowered metalness reads the value authored for the `metalness` input
/// and the roughness the value authored for the `specular_roughness` input,
/// where these are unconnected.
pub proof fn authored_metalness_and_roughness_reach_the_surface(
    g: Graph,
    output: Seq<char>,
    node: CoverageView,
    bits: u32,
)
    requires
        lower_surface(g, output) is Ok,
        find_node(g.nodes, "ND_standard_surface_surfaceshader"@) == Some(node),
    ensures
        has_float(g, owning_prim(output), node, "metalness"@, bits) ==> reads_float(
            (lower_surface(g, output)->Ok_0).0.uniforms,
            (lower_surface(g, output)->Ok_0).1.metalness,
            bits,
        ),
        has_float(g, owning_prim(output), node, "specular_roughness"@, bits) ==> reads_float(
            (lower_surface(g, output)->Ok_0).0.uniforms,
            (lower_surface(g, output)->Ok_0).1.roughness,
            bits,
        ),
{
    surface_fields_follow_their_inputs(g, output);
    let w = (lower_surface(g, output)->Ok_0).0;
    let surface = (lower_surface(g, output)->Ok_0).1;
    fields_read_floats(g, w, owning_prim(output), node, surface, bits);
}

proof fn fields_read_floats(
    g: Graph,
    w: Work,
    prim: Seq<char>,
    node: CoverageView,
    surface: SurfaceView,
    bits: u32,
)
    requires
        fields_follow_inputs(g, w, prim, node, surface),
    ensures
        has_float(g, prim, node, "metalness"@, bits) ==> reads_float(
            w.uniforms,
            surface.metalness,
            bits,
        ),
        has_float(g, prim, node, "specular_roughness"@, bits) ==> reads_float(
            w.uniforms,
            surface.roughness,
            bits,
        ),
{
    if has_float(g, prim, node, "metalness"@, bits) {
        authored_floats_are_read_back(
            g,
            w,
            prim,
            "metalness"@,
            find_port(node.inputs, "metalness"@)->0,
            surface.metalness,
            bits,
        );
    }
    if has_float(g, prim, node, "specular_roughness"@, bits) {
        authored_floats_are_read_back(
            g,
            w,
            prim,
            "specular_roughness"@,
            find_port(node.inputs, "specular_roughness"@)->0,
            surface.roughness,
            bits,
        );
    }
}

} // verus!
