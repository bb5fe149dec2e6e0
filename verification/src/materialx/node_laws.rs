//! What a lowered node stands for: the call it writes, the arguments of the
//! call and the texture of an image.

use super::compiler::sources_are_connected;
use super::diagnostic::{DiagnosticCode, DiagnosticView};
use super::graph::{
    chosen_output, connected, descriptor_of, id_implementation, image_texture, lower_arguments,
    lower_fresh, lower_image, lower_input, lower_node, lower_source, lower_surface, new_uniform,
    no_work, only_source, opts_in, path_problem, read_problem, readable_sources, required_port,
    shader_name, slot_code, sources_of, surface_output, surface_warnings, terminal_in, type_problem,
    ExpressionView, Graph, TextureView, Work,
};
use super::laws::{follows_through, input_keeps};
use super::registry::{find_node, find_port, is_callable, CoverageView, PortView};
use super::surface_laws::{drives, driving_lasts, found_ports_have_the_name, inputs_are_driven};
use super::value::{authored_slot, default_slot, SlotView};
use crate::path::{appended, owning_prim, property_split};
use crate::stage::{Authored, Value};
use crate::text::{decimal, join, views, without_leading};
use vstd::prelude::*;

verus! {

/// Every argument of a call is the value of the input at its place, in the
/// order of the descriptor.
pub proof fn arguments_are_the_inputs_in_order(
    g: Graph,
    visiting: Set<Seq<char>>,
    w: Work,
    prim: Seq<char>,
    id: Seq<char>,
    inputs: Seq<PortView>,
    count: nat,
)
    requires
        count <= inputs.len(),
    ensures
        lower_arguments(g, visiting, w, prim, id, inputs, count) matches Ok((w1, codes))
            ==> codes.len() == count && forall|k: int|
            0 <= k < count ==> drives(
                g,
                w1,
                prim,
                (#[trigger] inputs[k]).name,
                inputs[k],
                codes[k],
            ),
    decreases count,
{
    if count > 0 {
        let last = (count - 1) as nat;
        arguments_are_the_inputs_in_order(g, visiting, w, prim, id, inputs, last);
        if let Ok((w2, codes2)) = lower_arguments(g, visiting, w, prim, id, inputs, count) {
            let (w1, codes) = lower_arguments(g, visiting, w, prim, id, inputs, last)->Ok_0;
            let port = inputs[last as int];
            inputs_are_driven(g, visiting, w1, prim, port);
            input_keeps(g, visiting, w1, prim, port);
            assert forall|k: int| 0 <= k < count implies drives(
                g,
                w2,
                prim,
                (#[trigger] inputs[k]).name,
                inputs[k],
                codes2[k],
            ) by {
                if k < last {
                    assert(codes2[k] == codes[k]);
                    driving_lasts(g, w1, w2, prim, inputs[k].name, inputs[k], codes[k]);
                }
            }
        }
    }
}

/// The work ends with a line that gives the result of a call to a new variable,
/// which the expression is.
pub open spec fn ends_with_call(
    w: Work,
    e: ExpressionView,
    symbol: Seq<char>,
    arguments: Seq<char>,
) -> bool {
    &&& w.lines.len() > 0
    &&& e.code == "mx_node_"@ + decimal((w.lines.len() - 1) as nat)
    &&& w.lines.last() == "    let "@ + e.code + " = "@ + symbol + "("@ + arguments + ");"@
}

/// A node of the library is a call of its own function on all its inputs in
/// order, of the type of the output that is asked for.
pub proof fn nodes_call_their_function(
    g: Graph,
    visiting: Set<Seq<char>>,
    w: Work,
    prim: Seq<char>,
    output_name: Seq<char>,
    id: Seq<char>,
    node: CoverageView,
)
    requires
        lower_node(g, visiting, w, prim, output_name) is Ok,
        shader_name(g, prim) == Ok::<Seq<char>, DiagnosticView>(id),
        find_node(g.nodes, id) == Some(node),
        id != "ND_texcoord_vector2"@,
        id != "ND_image_color3"@,
    ensures
        is_callable(node),
        ({
            let (w1, e) = lower_node(g, visiting, w, prim, output_name)->Ok_0;
            &&& exists|codes: Seq<Seq<char>>|
                codes.len() == node.inputs.len() && #[trigger] ends_with_call(
                    w1,
                    e,
                    node.symbol->0,
                    join(codes, ", "@),
                ) && forall|k: int|
                    0 <= k < node.inputs.len() ==> drives(
                        g,
                        w1,
                        prim,
                        (#[trigger] node.inputs[k]).name,
                        node.inputs[k],
                        codes[k],
                    )
            &&& find_port(node.outputs, output_name) matches Some(port) ==> e.materialx_type
                == port.materialx_type
        }),
{
    let (w2, e) = lower_node(g, visiting, w, prim, output_name)->Ok_0;
    arguments_are_the_inputs_in_order(g, visiting, w, prim, id, node.inputs, node.inputs.len());
    let (w1, codes) = lower_arguments(
        g,
        visiting,
        w,
        prim,
        id,
        node.inputs,
        node.inputs.len(),
    )->Ok_0;
    assert(w2.uniforms == w1.uniforms && w2.memo == w1.memo);
    assert(ends_with_call(w2, e, node.symbol->0, join(codes, ", "@)));
    assert forall|k: int| 0 <= k < node.inputs.len() implies drives(
        g,
        w2,
        prim,
        (#[trigger] node.inputs[k]).name,
        node.inputs[k],
        codes[k],
    ) by {
        same_values_drive(
            g,
            w1,
            w2,
            prim,
            node.inputs[k].name,
            node.inputs[k],
            codes[k],
        );
    }
}

proof fn same_values_drive(
    g: Graph,
    a: Work,
    b: Work,
    prim: Seq<char>,
    name: Seq<char>,
    port: PortView,
    code: Seq<char>,
)
    requires
        a.uniforms == b.uniforms,
        a.memo == b.memo,
        drives(g, a, prim, name, port, code),
    ensures
        drives(g, b, prim, name, port, code),
{
}

/// The texture coordinates are the coordinates that the graph is given.
pub proof fn texture_coordinates_are_the_given_ones(
    g: Graph,
    visiting: Set<Seq<char>>,
    w: Work,
    prim: Seq<char>,
    output_name: Seq<char>,
)
    requires
        lower_node(g, visiting, w, prim, output_name) is Ok,
        shader_name(g, prim) == Ok::<Seq<char>, DiagnosticView>("ND_texcoord_vector2"@),
    ensures
        (lower_node(g, visiting, w, prim, output_name)->Ok_0).0 == w,
        (lower_node(g, visiting, w, prim, output_name)->Ok_0).1.code == "uv"@,
{
}

/// An image node adds one texture, samples that texture with the sampler of
/// the same number, and passes its `default` and `texcoord` inputs in this
/// order.
pub proof fn images_sample_their_own_texture(
    g: Graph,
    visiting: Set<Seq<char>>,
    w: Work,
    prim: Seq<char>,
    node: CoverageView,
    output: PortView,
)
    requires
        lower_image(g, visiting, w, prim, node, output) is Ok,
    ensures
        find_port(node.inputs, "default"@) is Some,
        find_port(node.inputs, "texcoord"@) is Some,
        image_texture(g, w, prim, node) is Ok,
        ({
            let (w1, e) = lower_image(g, visiting, w, prim, node, output)->Ok_0;
            let n = w.textures.len();
            &&& n < w1.textures.len()
            &&& w1.textures[n as int] == image_texture(g, w, prim, node)->Ok_0
            &&& e.materialx_type == output.materialx_type
            &&& exists|default: Seq<char>, texcoord: Seq<char>|
                #![trigger drives(g, w1, prim, "default"@, find_port(node.inputs, "default"@)->0, default),
                    drives(g, w1, prim, "texcoord"@, find_port(node.inputs, "texcoord"@)->0, texcoord)]
                drives(
                    g,
                    w1,
                    prim,
                    "default"@,
                    find_port(node.inputs, "default"@)->0,
                    default,
                ) && drives(
                    g,
                    w1,
                    prim,
                    "texcoord"@,
                    find_port(node.inputs, "texcoord"@)->0,
                    texcoord,
                ) && ends_with_call(
                    w1,
                    e,
                    node.symbol->0,
                    "materialx_texture_"@ + decimal(n) + ", materialx_sampler_"@ + decimal(n) + ", "@
                        + default + ", "@ + texcoord + ", vec2f(1.0), vec2f(0.0)"@,
                )
        }),
{
    let texture = image_texture(g, w, prim, node)->Ok_0;
    let w1 = Work { textures: w.textures.push(texture), ..w };
    let default_port = required_port(node, "default"@)->Ok_0;
    let (w2, default, _) = lower_input(g, visiting, w1, prim, default_port)->Ok_0;
    let texcoord_port = required_port(node, "texcoord"@)->Ok_0;
    let (w3, texcoord, _) = lower_input(g, visiting, w2, prim, texcoord_port)->Ok_0;
    let (w4, e) = lower_image(g, visiting, w, prim, node, output)->Ok_0;
    found_ports_have_the_name(node.inputs, "default"@);
    found_ports_have_the_name(node.inputs, "texcoord"@);
    inputs_are_driven(g, visiting, w1, prim, default_port);
    inputs_are_driven(g, visiting, w2, prim, texcoord_port);
    input_keeps(g, visiting, w1, prim, default_port);
    input_keeps(g, visiting, w2, prim, texcoord_port);
    driving_lasts(g, w2, w3, prim, "default"@, default_port, default.code);
    same_values_drive(g, w3, w4, prim, "default"@, default_port, default.code);
    same_values_drive(g, w3, w4, prim, "texcoord"@, texcoord_port, texcoord.code);
    follows_through(w1, w2, w3);
    let n = w.textures.len();
    assert(w1.textures[n as int] == texture);
    assert(w3.textures[n as int] == texture);
    assert(ends_with_call(
        w4,
        e,
        node.symbol->0,
        "materialx_texture_"@ + decimal(n) + ", materialx_sampler_"@ + decimal(n) + ", "@
            + default.code + ", "@ + texcoord.code + ", vec2f(1.0), vec2f(0.0)"@,
    ));
}

/// The texture of an image is the file that its `file` input holds: where the
/// asset resolved to, a plain text, or the default of the port. An asset that
/// did not resolve, and an empty file name, are missing assets.
pub proof fn images_take_their_file(
    g: Graph,
    w: Work,
    prim: Seq<char>,
    node: CoverageView,
    texture: TextureView,
)
    requires
        image_texture(g, w, prim, node) == Ok::<TextureView, DiagnosticView>(texture),
    ensures
        texture.path.len() > 0,
        texture.is_srgb,
        texture.u_address_mode == "periodic"@,
        texture.v_address_mode == "periodic"@,
        texture.filter_type == "linear"@,
        w.textures.len() != 4,
        match g.stage.timed_value(prim, "inputs:file"@) {
            Ok(Some(authored)) => match authored.value {
                Value::Asset { authored: path, resolved } => resolved matches Some(found)
                    && texture.path == found@,
                Value::Text(path) => texture.path == path@,
                Value::Token(path) => texture.path == path@,
                _ => false,
            },
            Ok(None) => find_port(node.inputs, "file"@) matches Some(port)
                && port.default_value matches Some(text) && texture.path == text,
            Err(_) => false,
        },
{
}

/// The file input of an image is not connected where it has a texture, and a
/// material has no more than four images.
pub proof fn image_problems_are_diagnosed(g: Graph, w: Work, prim: Seq<char>, node: CoverageView)
    ensures
        w.textures.len() == 4 ==> (image_texture(g, w, prim, node) matches Err(d) && d.code
            == DiagnosticCode::ResourceLimit && d.node == Some(prim) && d.material == g.material),
        w.textures.len() != 4 && find_port(node.inputs, "file"@) is Some && (appended(
            prim,
            "inputs:file"@,
        ) matches Ok(path) && sources_of(g, path) matches Ok(list) && list.len() > 0) ==> (
        image_texture(g, w, prim, node) matches Err(d) && d.code
            == DiagnosticCode::UnsupportedFeature && d.node == Some(prim)),
{
}

/// The identifier of a shader is the token or text that it carries; without
/// one the shader is of no known kind.
pub proof fn shaders_have_their_identifier(g: Graph, prim: Seq<char>)
    requires
        appended(prim, "info:id"@) is Ok,
    ensures
        match g.stage.default_value(prim, "info:id"@) {
            Ok(Some(authored)) => match authored.value {
                Value::Token(id) => shader_name(g, prim) == Ok::<Seq<char>, DiagnosticView>(id@),
                Value::Text(id) => shader_name(g, prim) == Ok::<Seq<char>, DiagnosticView>(id@),
                _ => shader_name(g, prim) matches Err(d) && d.code == DiagnosticCode::UnknownNodeDef,
            },
            Ok(None) => shader_name(g, prim) matches Err(d) && d.code
                == DiagnosticCode::UnknownNodeDef,
            Err(_) => shader_name(g, prim) matches Err(d) && d.code
                == DiagnosticCode::InvalidConnection,
        },
{
}

/// A shader that is implemented otherwise than by its identifier is refused;
/// one that does not say is implemented by it.
pub proof fn only_identified_shaders_are_taken(g: Graph, prim: Seq<char>)
    ensures
        match g.stage.default_value(prim, "info:implementationSource"@) {
            Ok(None) => id_implementation(g, prim) is Ok,
            Ok(Some(authored)) => match authored.value {
                Value::Token(s) => id_implementation(g, prim) is Ok <==> s@ == "id"@,
                Value::Text(s) => id_implementation(g, prim) is Ok <==> s@ == "id"@,
                _ => id_implementation(g, prim) is Ok <==> authored.shown@ == "id"@,
            },
            Err(_) => id_implementation(g, prim) is Err,
        },
        id_implementation(g, prim) matches Err(d) ==> d.code
            == DiagnosticCode::UnsupportedImplementation || d.code
            == DiagnosticCode::InvalidConnection,
{
}

/// The output that a connection means is the one it names; an unknown name is
/// taken only where there is but one output.
pub proof fn connections_mean_the_named_output(
    g: Graph,
    prim: Seq<char>,
    id: Seq<char>,
    node: CoverageView,
    name: Seq<char>,
)
    ensures
        find_port(node.outputs, name) matches Some(port) ==> chosen_output(g, prim, id, node, name)
            == Ok::<PortView, DiagnosticView>(port),
        find_port(node.outputs, name) is None && node.outputs.len() == 1 ==> chosen_output(
            g,
            prim,
            id,
            node,
            name,
        ) == Ok::<PortView, DiagnosticView>(node.outputs[0]),
        find_port(node.outputs, name) is None && node.outputs.len() != 1 ==> (chosen_output(
            g,
            prim,
            id,
            node,
            name,
        ) matches Err(d) && d.code == DiagnosticCode::UnknownOutput && d.node == Some(prim)),
{
}

/// The surface is seen through a surface material node, and only through such
/// a node; any other shader output is the surface itself.
pub proof fn surface_materials_are_seen_through(
    g: Graph,
    source: Seq<char>,
    prim: Seq<char>,
    property: Seq<char>,
    id: Seq<char>,
)
    requires
        property_split(source) == Some((prim, property)),
        "outputs:"@.is_prefix_of(property),
        shader_name(g, prim) == Ok::<Seq<char>, DiagnosticView>(id),
    ensures
        id != "ND_surfacematerial"@ ==> surface_output(g, source) == Ok::<
            Seq<char>,
            DiagnosticView,
        >(source),
        id == "ND_surfacematerial"@ ==> (appended(prim, "inputs:surfaceshader"@) matches Ok(input)
            ==> (sources_of(g, input) matches Ok(list) ==> (list.len() == 1 ==> surface_output(
            g,
            source,
        ) == Ok::<Seq<char>, DiagnosticView>(list[0])))),
        id == "ND_surfacematerial"@ ==> (appended(prim, "inputs:surfaceshader"@) matches Ok(input)
            ==> (sources_of(g, input) matches Ok(list) ==> (list.len() == 0 ==> (surface_output(
            g,
            source,
        ) matches Err(d) && d.code == DiagnosticCode::MissingValue)))),
        id == "ND_surfacematerial"@ ==> (appended(prim, "inputs:surfaceshader"@) matches Ok(input)
            ==> (sources_of(g, input) matches Ok(list) ==> (list.len() > 1 ==> (surface_output(
            g,
            source,
        ) matches Err(d) && d.code == DiagnosticCode::AmbiguousConnection)))),
{
}

/// Only a Standard Surface is lowered as a surface.
pub proof fn only_standard_surfaces_are_lowered(g: Graph, output: Seq<char>)
    ensures
        lower_surface(g, output) is Ok ==> shader_name(g, owning_prim(output)) == Ok::<
            Seq<char>,
            DiagnosticView,
        >("ND_standard_surface_surfaceshader"@),
        (shader_name(g, owning_prim(output)) matches Ok(id) && id
            != "ND_standard_surface_surfaceshader"@) ==> (lower_surface(g, output) matches Err(d)
            && d.code == DiagnosticCode::UnknownNodeDef && d.node == Some(owning_prim(output))),
{
}

/// A material is routed to the compiler by a connected MaterialX terminal, or
/// by a universal terminal whose one source is a NodeGraph or a registered
/// shader; by nothing else.
pub proof fn routing_needs_a_materialx_graph(g: Graph)
    ensures
        readable_sources(g, "outputs:mtlx:surface"@).len() > 0 ==> opts_in(g),
        readable_sources(g, "outputs:mtlx:surface"@).len() == 0 && readable_sources(
            g,
            "outputs:surface"@,
        ).len() != 1 ==> !opts_in(g),
        readable_sources(g, "outputs:mtlx:surface"@).len() == 0 && readable_sources(
            g,
            "outputs:surface"@,
        ).len() == 1 ==> {
            let prim = owning_prim(readable_sources(g, "outputs:surface"@)[0]);
            let graph = g.stage.type_of(prim) == Ok::<Option<Seq<char>>, Seq<char>>(
                Some("NodeGraph"@),
            );
            let known = match g.stage.value_of(prim, "info:id"@) {
                Some(Value::Token(id)) => find_node(g.nodes, id@) is Some,
                Some(Value::Text(id)) => find_node(g.nodes, id@) is Some,
                _ => false,
            };
            opts_in(g) <==> graph || known
        },
{
}

/// An input that cannot be lowered is diagnosed where it stands: several
/// sources are ambiguous, a value of another type and a source of another type
/// are mismatches, and an input without any value is missing one.
pub proof fn input_problems_are_diagnosed(
    g: Graph,
    visiting: Set<Seq<char>>,
    w: Work,
    prim: Seq<char>,
    port: PortView,
    attribute: Seq<char>,
    sources: Seq<Seq<char>>,
)
    requires
        appended(prim, "inputs:"@ + port.name) == Ok::<Seq<char>, Seq<char>>(attribute),
        sources_of(g, attribute) == Ok::<Seq<Seq<char>>, DiagnosticView>(sources),
    ensures
        sources.len() > 1 ==> (lower_input(g, visiting, w, prim, port) matches Err(d) && d.code
            == DiagnosticCode::AmbiguousConnection && d.property == Some(attribute) && d.node
            == Some(prim)),
        sources.len() == 1 ==> (lower_source(g, visiting, w, sources[0]) matches Ok((w1, e)) ==> (
        e.materialx_type != port.materialx_type ==> (lower_input(
            g,
            visiting,
            w,
            prim,
            port,
        ) matches Err(d) && d.code == DiagnosticCode::TypeMismatch && d.property == Some(
            attribute,
        )))),
        sources.len() == 0 && g.stage.timed_value(prim, "inputs:"@ + port.name) == Ok::<
            Option<Authored>,
            Seq<char>,
        >(None) && port.default_value is None ==> (lower_input(
            g,
            visiting,
            w,
            prim,
            port,
        ) matches Err(d) && d.code == DiagnosticCode::MissingValue && d.property == Some(
            attribute,
        ) && d.node == Some(prim)),
        sources.len() == 0 && (g.stage.timed_value(prim, "inputs:"@ + port.name) matches Ok(Some(a))
            && authored_slot(port.materialx_type, a) is Err) ==> (lower_input(
            g,
            visiting,
            w,
            prim,
            port,
        ) matches Err(d) && d.code == DiagnosticCode::TypeMismatch && d.property == Some(
            attribute,
        )),
        sources.len() == 0 && w.uniforms.len() == 64 && (g.stage.timed_value(
            prim,
            "inputs:"@ + port.name,
        ) matches Ok(Some(a)) && authored_slot(port.materialx_type, a) is Ok) ==> (lower_input(
            g,
            visiting,
            w,
            prim,
            port,
        ) matches Err(d) && d.code == DiagnosticCode::ResourceLimit && d.property == Some(
            attribute,
        )),
{
    sources_are_connected(g, attribute, 0);
}

/// An authored value is taken even where the port has a default, and a
/// connection even where a value is authored.
pub proof fn connections_win_over_values_over_defaults(
    g: Graph,
    visiting: Set<Seq<char>>,
    w: Work,
    prim: Seq<char>,
    port: PortView,
    attribute: Seq<char>,
    sources: Seq<Seq<char>>,
)
    requires
        appended(prim, "inputs:"@ + port.name) == Ok::<Seq<char>, Seq<char>>(attribute),
        sources_of(g, attribute) == Ok::<Seq<Seq<char>>, DiagnosticView>(sources),
        lower_input(g, visiting, w, prim, port) is Ok,
    ensures
        ({
            let (w1, e, active) = lower_input(g, visiting, w, prim, port)->Ok_0;
            &&& sources.len() == 1 ==> active && lower_source(g, visiting, w, sources[0]) == Ok::<
                (Work, ExpressionView),
                DiagnosticView,
            >((w1, e))
            &&& sources.len() == 0 ==> w1.uniforms.len() == w.uniforms.len() + 1
            &&& sources.len() == 0 ==> (g.stage.timed_value(
                prim,
                "inputs:"@ + port.name,
            ) matches Ok(Some(a)) ==> active && authored_slot(port.materialx_type, a) == Ok::<
                SlotView,
                Seq<char>,
            >(w1.uniforms.last()))
            &&& sources.len() == 0 ==> (g.stage.timed_value(prim, "inputs:"@ + port.name) == Ok::<
                Option<Authored>,
                Seq<char>,
            >(None) ==> !active && port.default_value is Some && default_slot(
                port.materialx_type,
                port.default_value->0,
            ) == Ok::<SlotView, Seq<char>>(w1.uniforms.last()))
        }),
{
    sources_are_connected(g, attribute, 0);
}

/// A property of a material or a NodeGraph, and any input, is an interface: its
/// one source is lowered in its place. Without a source, or with several, it is
/// diagnosed, and so is anything else that is no shader output.
pub proof fn interfaces_are_followed(
    g: Graph,
    visiting: Set<Seq<char>>,
    w: Work,
    source: Seq<char>,
    prim: Seq<char>,
    property: Seq<char>,
    kind: Option<Seq<char>>,
)
    requires
        property_split(source) == Some((prim, property)),
        g.stage.type_of(prim) == Ok::<Option<Seq<char>>, Seq<char>>(kind),
    ensures
        kind == Some("Material"@) || kind == Some("NodeGraph"@) || "inputs:"@.is_prefix_of(property)
            ==> (sources_of(g, source) matches Ok(list) ==> {
            &&& list.len() == 1 ==> lower_fresh(g, visiting, w, source) == lower_source(
                g,
                visiting,
                w,
                list[0],
            )
            &&& list.len() == 0 ==> (lower_fresh(g, visiting, w, source) matches Err(d) && d.code
                == DiagnosticCode::InvalidConnection && d.property == Some(source))
            &&& list.len() > 1 ==> (lower_fresh(g, visiting, w, source) matches Err(d) && d.code
                == DiagnosticCode::AmbiguousConnection && d.property == Some(source))
        }),
        kind != Some("Material"@) && kind != Some("NodeGraph"@) && !"inputs:"@.is_prefix_of(property)
            && (kind != Some("Shader"@) || !"outputs:"@.is_prefix_of(property)) ==> (lower_fresh(
            g,
            visiting,
            w,
            source,
        ) matches Err(d) && d.code == DiagnosticCode::InvalidConnection && d.property == Some(
            source,
        )),
        kind == Some("Shader"@) && "outputs:"@.is_prefix_of(property) && !"inputs:"@.is_prefix_of(
            property,
        ) && kind != Some("Material"@) && kind != Some("NodeGraph"@) ==> lower_fresh(
            g,
            visiting,
            w,
            source,
        ) == lower_node(g, visiting, w, prim, without_leading(property, "outputs:"@)),
{
    sources_are_connected(g, source, 0);
}

/// A source that is lowered is remembered with its expression.
pub proof fn lowered_sources_are_remembered(
    g: Graph,
    visiting: Set<Seq<char>>,
    w: Work,
    source: Seq<char>,
)
    requires
        connected(g.stage).contains(source),
    ensures
        lower_source(g, visiting, w, source) matches Ok((w1, e)) ==> w1.memo.contains_key(source)
            && w1.memo[source] == e,
        w.memo.contains_key(source) ==> lower_source(g, visiting, w, source) == Ok::<
            (Work, ExpressionView),
            DiagnosticView,
        >((w, w.memo[source])),
{
}

/// Only a node of the library whose function is translated can be called; any
/// other is an unsupported feature, and an unknown one has no descriptor.
pub proof fn unsupported_nodes_are_diagnosed(
    g: Graph,
    visiting: Set<Seq<char>>,
    w: Work,
    prim: Seq<char>,
    output_name: Seq<char>,
    id: Seq<char>,
)
    requires
        shader_name(g, prim) == Ok::<Seq<char>, DiagnosticView>(id),
        id_implementation(g, prim) is Ok,
    ensures
        find_node(g.nodes, id) is None ==> (lower_node(
            g,
            visiting,
            w,
            prim,
            output_name,
        ) matches Err(d) && d.code == DiagnosticCode::UnknownNodeDef && d.node == Some(prim)),
        (find_node(g.nodes, id) matches Some(node) && chosen_output(
            g,
            prim,
            id,
            node,
            output_name,
        ) is Ok && node.status != "translated"@ && node.status != "composed"@ && id
            != "ND_texcoord_vector2"@ && id != "ND_image_color3"@) ==> (lower_node(
            g,
            visiting,
            w,
            prim,
            output_name,
        ) matches Err(d) && d.code == DiagnosticCode::UnsupportedFeature && d.node == Some(prim)),
{
}

/// A lowered surface warns that it is an approximation, and of its normal where
/// one is set.
pub proof fn surfaces_carry_their_warnings(
    g: Graph,
    prim: Seq<char>,
    done: Seq<(ExpressionView, bool)>,
)
    requires
        done.len() == 8,
    ensures
        surface_warnings(g, prim, done).len() == (if done[7].1 {
            2nat
        } else {
            1nat
        }),
        surface_warnings(g, prim, done)[0].node == Some(prim),
        surface_warnings(g, prim, done)[0].property is None,
        surface_warnings(g, prim, done)[0].code == DiagnosticCode::UnsupportedFeature,
        done[7].1 ==> surface_warnings(g, prim, done)[1].property == Some("inputs:normal"@)
            && surface_warnings(g, prim, done)[1].node == Some(prim),
{
}

/// A property that cannot be read and a path that cannot be formed are told
/// with their place and the error's own words.
pub proof fn unreadable_places_are_told(g: Graph, place: Seq<char>, error: Seq<char>)
    ensures
        read_problem(g, place, error).code == DiagnosticCode::InvalidConnection,
        read_problem(g, place, error).material == g.material,
        read_problem(g, place, error).node == Some(owning_prim(place)),
        read_problem(g, place, error).property == Some(place),
        error.is_suffix_of(read_problem(g, place, error).message),
        path_problem(g, place, error).code == DiagnosticCode::InvalidConnection,
        path_problem(g, place, error).material == g.material,
        path_problem(g, place, error).property == Some(place),
        error.is_suffix_of(path_problem(g, place, error).message),
{
    let a = read_problem(g, place, error).message;
    assert(error =~= a.subrange(a.len() - error.len(), a.len() as int));
    let b = path_problem(g, place, error).message;
    assert(error =~= b.subrange(b.len() - error.len(), b.len() as int));
}

/// An image whose asset did not resolve, or whose file is nowhere, is a missing
/// asset at its file input.
pub proof fn missing_images_are_diagnosed(
    g: Graph,
    w: Work,
    prim: Seq<char>,
    node: CoverageView,
    attribute: Seq<char>,
    authored: Authored,
    path: String,
)
    requires
        w.textures.len() != 4,
        find_port(node.inputs, "file"@) is Some,
        appended(prim, "inputs:file"@) == Ok::<Seq<char>, Seq<char>>(attribute),
        sources_of(g, attribute) matches Ok(list) && list.len() == 0,
        g.stage.timed_value(prim, "inputs:file"@) == Ok::<Option<Authored>, Seq<char>>(
            Some(authored),
        ),
        authored.value == (Value::Asset { authored: path, resolved: None }),
    ensures
        image_texture(g, w, prim, node) matches Err(d) && d.code == DiagnosticCode::MissingAsset
            && d.node == Some(prim) && d.property == Some(attribute),
{
}

/// A surface terminal has to be a shader output; what is no property, or no
/// output, is an invalid connection at the terminal.
pub proof fn terminals_are_shader_outputs(g: Graph, source: Seq<char>)
    ensures
        property_split(source) is None ==> (surface_output(g, source) matches Err(d) && d.code
            == DiagnosticCode::InvalidConnection && d.property == Some(source)),
        (property_split(source) matches Some((prim, property)) && !"outputs:"@.is_prefix_of(
            property,
        )) ==> (surface_output(g, source) matches Err(d) && d.code
            == DiagnosticCode::InvalidConnection && d.property == Some(source) && d.node == Some(
            (property_split(source)->0).0,
        )),
        property_split(source) is None ==> (sources_of(g, source) matches Err(d) && d.code
            == DiagnosticCode::InvalidConnection && d.property == Some(source)),
        (property_split(source) matches Some((prim, name)) && g.stage.targets(
            prim,
            name,
        ) matches Ok(list) && sources_of(g, source) == Ok::<Seq<Seq<char>>, DiagnosticView>(list))
            || property_split(source) is None || g.stage.targets(
            (property_split(source)->0).0,
            (property_split(source)->0).1,
        ) is Err,
{
}

/// A required input port that a descriptor lacks is a missing value of the
/// registry, at that descriptor and input.
pub proof fn missing_ports_are_diagnosed(node: CoverageView, name: Seq<char>)
    ensures
        find_port(node.inputs, name) matches Some(port) ==> required_port(node, name) == Ok::<
            PortView,
            DiagnosticView,
        >(port),
        find_port(node.inputs, name) is None ==> (required_port(node, name) matches Err(d) && d.code
            == DiagnosticCode::MissingValue && d.node == Some(node.nodedef) && d.property == Some(
            "inputs:"@ + name,
        )),
{
}

/// An input without a WESL type cannot be passed to a function.
pub proof fn host_only_inputs_are_not_passed(
    g: Graph,
    visiting: Set<Seq<char>>,
    w: Work,
    prim: Seq<char>,
    id: Seq<char>,
    inputs: Seq<PortView>,
    count: nat,
)
    requires
        0 < count <= inputs.len(),
        inputs[count - 1].wesl_type is None,
    ensures
        lower_arguments(g, visiting, w, prim, id, inputs, (count - 1) as nat) is Ok ==> (
        lower_arguments(g, visiting, w, prim, id, inputs, count) matches Err(d) && d.code
            == DiagnosticCode::UnsupportedFeature && d.node == Some(prim) && d.property == Some(
            "inputs:"@ + inputs[count - 1].name,
        )),
        lower_arguments(g, visiting, w, prim, id, inputs, (count - 1) as nat) matches Err(d)
            ==> lower_arguments(g, visiting, w, prim, id, inputs, count) == Err::<
            (Work, Seq<Seq<char>>),
            DiagnosticView,
        >(d),
{
}

/// A new uniform takes the next slot and is read from it; a 65th one, or one
/// of a type without a slot, is refused.
pub proof fn uniforms_take_the_next_slot(
    g: Graph,
    w: Work,
    port: PortView,
    slot: SlotView,
    attribute: Seq<char>,
)
    ensures
        w.uniforms.len() == 64 ==> (new_uniform(g, w, port, slot, attribute) matches Err(d)
            && d.code == DiagnosticCode::ResourceLimit && d.property == Some(attribute)),
        w.uniforms.len() != 64 && slot_code(w.uniforms.len(), port.materialx_type) is None ==> (
        new_uniform(g, w, port, slot, attribute) matches Err(d) && d.code
            == DiagnosticCode::UnsupportedFeature && d.property == Some(attribute)),
        w.uniforms.len() != 64 && slot_code(w.uniforms.len(), port.materialx_type) is Some ==> (
        new_uniform(g, w, port, slot, attribute) matches Ok((w1, e)) && w1.uniforms
            == w.uniforms.push(slot) && Some(e.code) == slot_code(
            w.uniforms.len(),
            port.materialx_type,
        ) && e.materialx_type == port.materialx_type && w1.textures == w.textures && w1.lines
            == w.lines && w1.memo == w.memo),
{
}

/// An image without a file, or whose absolute file the host did not find, is a
/// missing asset.
pub proof fn absent_images_are_diagnosed(
    g: Graph,
    w: Work,
    prim: Seq<char>,
    node: CoverageView,
    attribute: Seq<char>,
    authored: Authored,
    path: String,
)
    requires
        w.textures.len() != 4,
        find_port(node.inputs, "file"@) is Some,
        appended(prim, "inputs:file"@) == Ok::<Seq<char>, Seq<char>>(attribute),
        sources_of(g, attribute) matches Ok(list) && list.len() == 0,
        g.stage.timed_value(prim, "inputs:file"@) == Ok::<Option<Authored>, Seq<char>>(
            Some(authored),
        ),
        authored.value == Value::Text(path),
    ensures
        path@.len() == 0 ==> (image_texture(g, w, prim, node) matches Err(d) && d.code
            == DiagnosticCode::MissingAsset && d.property == Some(attribute)),
        path@.len() > 0 && path@[0] == '/' && views(g.stage.absent_files@).contains(path@) ==> (
        image_texture(g, w, prim, node) matches Err(d) && d.code == DiagnosticCode::MissingAsset
            && d.property == Some(attribute)),
        path@.len() > 0 && (path@[0] != '/' || !views(g.stage.absent_files@).contains(path@)) ==> (
        image_texture(g, w, prim, node) matches Ok(texture) && texture.path == path@),
{
}

/// Messages name what they are about: both types of a mismatched connection,
/// the number of sources of an ambiguous one, and the input that has no value.
pub proof fn input_messages_name_their_subject(
    g: Graph,
    visiting: Set<Seq<char>>,
    w: Work,
    prim: Seq<char>,
    port: PortView,
    attribute: Seq<char>,
    sources: Seq<Seq<char>>,
    found: Seq<char>,
)
    requires
        appended(prim, "inputs:"@ + port.name) == Ok::<Seq<char>, Seq<char>>(attribute),
        sources_of(g, attribute) == Ok::<Seq<Seq<char>>, DiagnosticView>(sources),
    ensures
        type_problem(g, found, port, attribute).message == "input expects "@ + port.materialx_type
            + ", connected output is "@ + found,
        sources.len() > 1 ==> (lower_input(g, visiting, w, prim, port) matches Err(d) && d.message
            == "input has "@ + decimal(sources.len())
            + " composed sources; exactly one is required"@),
        sources.len() == 0 && g.stage.timed_value(prim, "inputs:"@ + port.name) == Ok::<
            Option<Authored>,
            Seq<char>,
        >(None) && port.default_value is None ==> (lower_input(
            g,
            visiting,
            w,
            prim,
            port,
        ) matches Err(d) && d.message == "input "@ + port.name
            + " has no connection, authored value, or NodeDef default"@),
        required_source(g, attribute, sources),
{
    sources_are_connected(g, attribute, 0);
}

/// A required input has its one source; without one it is told unconnected, and
/// with several their number is told.
pub open spec fn required_source(
    g: Graph,
    attribute: Seq<char>,
    sources: Seq<Seq<char>>,
) -> bool {
    &&& sources.len() == 1 ==> only_source(g, attribute) == Ok::<Seq<char>, DiagnosticView>(
        sources[0],
    )
    &&& sources.len() == 0 ==> (only_source(g, attribute) matches Err(d) && d.message
        == "required input is not connected"@)
    &&& sources.len() > 1 ==> (only_source(g, attribute) matches Err(d) && d.message
        == "required input has "@ + decimal(sources.len()) + " sources"@)
}

/// A node that cannot be lowered is told by its identifier, an unsupported one
/// with its status and reason, and an unknown output by its name.
pub proof fn node_messages_name_their_subject(
    g: Graph,
    prim: Seq<char>,
    id: Seq<char>,
    node: CoverageView,
    name: Seq<char>,
)
    ensures
        find_node(g.nodes, id) is None ==> (descriptor_of(g, prim, id) matches Err(d) && d.message
            == "NodeDef "@ + id + " is absent from the MaterialX registry"@),
        find_node(g.nodes, id) matches Some(found) ==> descriptor_of(g, prim, id) == Ok::<
            CoverageView,
            DiagnosticView,
        >(found),
        find_port(node.outputs, name) is None && node.outputs.len() != 1 ==> (chosen_output(
            g,
            prim,
            id,
            node,
            name,
        ) matches Err(d) && d.message == "NodeDef "@ + id + " has no output named "@ + name
            && d.property == Some("outputs:"@ + name)),
        (shader_name(g, prim) == Ok::<Seq<char>, DiagnosticView>(id) && id_implementation(g, prim)
            is Ok && find_node(g.nodes, id) == Some(node) && chosen_output(
            g,
            prim,
            id,
            node,
            name,
        ) is Ok && !is_callable(node) && id != "ND_texcoord_vector2"@ && id != "ND_image_color3"@
            && node.reason is Some) ==> (lower_node(
            g,
            Set::empty(),
            no_work(),
            prim,
            name,
        ) matches Err(d) && d.message == "NodeDef "@ + id + " is "@ + node.status + ": "@
            + node.reason->0),
{
}

/// The terminal that is taken is the one source of the MaterialX output; only
/// where that has none is the universal output looked at.
pub proof fn terminals_are_told_apart(g: Graph, name: Seq<char>, path: Seq<char>)
    requires
        appended(g.material, name) == Ok::<Seq<char>, Seq<char>>(path),
    ensures
        sources_of(g, path) matches Ok(list) ==> {
            &&& list.len() == 0 ==> terminal_in(g, name) == Ok::<
                Option<Seq<char>>,
                DiagnosticView,
            >(None)
            &&& list.len() == 1 ==> terminal_in(g, name) == Ok::<
                Option<Seq<char>>,
                DiagnosticView,
            >(Some(list[0]))
            &&& list.len() > 1 ==> (terminal_in(g, name) matches Err(d) && d.code
                == DiagnosticCode::AmbiguousConnection && d.property == Some(path) && d.message
                == "surface terminal has "@ + decimal(list.len())
                + " composed sources; exactly one is required"@)
        },
        sources_of(g, path) matches Err(d) ==> terminal_in(g, name) == Err::<
            Option<Seq<char>>,
            DiagnosticView,
        >(d),
{
}

} // verus!
