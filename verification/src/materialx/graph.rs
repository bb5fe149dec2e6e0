//! What a UsdShade graph lowers to: the meaning of the graph compiler.
//!
//! Every function here takes the graph and the work done so far and says what
//! the lowering of one piece returns and adds, or with which diagnostic it
//! fails.

use super::diagnostic::{error_view, warning_view, DiagnosticCode, DiagnosticView};
use super::emit::{root_text, SurfaceView};
use super::registry::{find_node, find_port, is_callable, CoverageView, PortView};
use super::value::{authored_slot, default_slot, SlotView};
use crate::fspath::is_absolute;
use crate::path::{appended, owning_prim, property_split};
use crate::stage::{attribute_targets, Attribute, Prim, Stage, Value};
use crate::text::{decimal, join, quoted, text_less, views, without_leading};
use vstd::prelude::*;

verus! {

/// How many uniform slots one material may use.
pub const MAX_UNIFORMS: usize = 64;

/// How many images one material may use.
pub const MAX_TEXTURES: usize = 4;

/// A generated expression and its MaterialX type.
#[verifier::ext_equal]
pub struct ExpressionView {
    pub code: Seq<char>,
    pub materialx_type: Seq<char>,
}

/// A texture with its sampling metadata.
#[verifier::ext_equal]
pub struct TextureView {
    pub path: Seq<char>,
    pub is_srgb: bool,
    pub u_address_mode: Seq<char>,
    pub v_address_mode: Seq<char>,
    pub filter_type: Seq<char>,
}

/// The graph that is compiled: the sampled stage, the material's path and the
/// known descriptors.
pub struct Graph {
    pub stage: Stage,
    pub material: Seq<char>,
    pub nodes: Seq<CoverageView>,
}

/// What the lowering has produced so far. `modules` and `imports` are in
/// strictly ascending order; `memo` holds the expression of every connection
/// source that was lowered.
#[verifier::ext_equal]
pub struct Work {
    pub uniforms: Seq<SlotView>,
    pub textures: Seq<TextureView>,
    pub lines: Seq<Seq<char>>,
    pub modules: Seq<Seq<char>>,
    pub imports: Seq<(Seq<char>, Seq<char>)>,
    pub memo: Map<Seq<char>, ExpressionView>,
}

/// The work before anything is lowered.
pub open spec fn no_work() -> Work {
    Work {
        uniforms: Seq::empty(),
        textures: Seq::empty(),
        lines: Seq::empty(),
        modules: Seq::empty(),
        imports: Seq::empty(),
        memo: Map::empty(),
    }
}

/// `list` with `item` at its place in ascending order, once.
pub open spec fn with_module(list: Seq<Seq<char>>, item: Seq<char>) -> Seq<Seq<char>>
    decreases list.len(),
{
    if list.len() == 0 {
        seq![item]
    } else if list.last() == item {
        list
    } else if text_less(list.last(), item) {
        list.push(item)
    } else {
        with_module(list.drop_last(), item).push(list.last())
    }
}

/// `a` comes before `b`: by module, then by symbol.
pub open spec fn import_less(a: (Seq<char>, Seq<char>), b: (Seq<char>, Seq<char>)) -> bool {
    text_less(a.0, b.0) || (a.0 == b.0 && text_less(a.1, b.1))
}

/// `list` with `item` at its place in ascending order, once.
pub open spec fn with_import(
    list: Seq<(Seq<char>, Seq<char>)>,
    item: (Seq<char>, Seq<char>),
) -> Seq<(Seq<char>, Seq<char>)>
    decreases list.len(),
{
    if list.len() == 0 {
        seq![item]
    } else if list.last() == item {
        list
    } else if import_less(list.last(), item) {
        list.push(item)
    } else {
        with_import(list.drop_last(), item).push(list.last())
    }
}

/// The connection targets of a list of attributes.
pub open spec fn attribute_list_targets(attributes: Seq<Attribute>) -> Seq<Seq<char>>
    decreases attributes.len(),
{
    if attributes.len() == 0 {
        Seq::empty()
    } else {
        (match attribute_targets(attributes[0]) {
            Ok(list) => list,
            Err(_) => Seq::empty(),
        }) + attribute_list_targets(attributes.skip(1))
    }
}

/// The connection targets of a list of prims.
pub open spec fn prim_list_targets(prims: Seq<Prim>) -> Seq<Seq<char>>
    decreases prims.len(),
{
    if prims.len() == 0 {
        Seq::empty()
    } else {
        attribute_list_targets(prims[0].attributes@) + prim_list_targets(prims.skip(1))
    }
}

/// Everything that some attribute of the stage connects to.
pub open spec fn connected(stage: Stage) -> Set<Seq<char>> {
    prim_list_targets(stage.prims@).to_set()
}

/// How many connection targets are not being lowered yet.
pub open spec fn room(g: Graph, visiting: Set<Seq<char>>) -> nat {
    connected(g.stage).difference(visiting).len()
}

/// The diagnostic of a property that could not be read.
pub open spec fn read_problem(g: Graph, property: Seq<char>, error: Seq<char>) -> DiagnosticView {
    error_view(
        DiagnosticCode::InvalidConnection,
        g.material,
        Some(owning_prim(property)),
        Some(property),
        "failed to read composed USD property: "@ + error,
    )
}

/// The diagnostic of a path that could not be formed.
pub open spec fn path_problem(g: Graph, location: Seq<char>, error: Seq<char>) -> DiagnosticView {
    error_view(
        DiagnosticCode::InvalidConnection,
        g.material,
        None,
        Some(location),
        "invalid USD path: "@ + error,
    )
}

/// The composed sources of an attribute.
pub open spec fn sources_of(g: Graph, attribute: Seq<char>) -> Result<
    Seq<Seq<char>>,
    DiagnosticView,
> {
    match property_split(attribute) {
        None => Err(
            error_view(
                DiagnosticCode::InvalidConnection,
                g.material,
                None,
                Some(attribute),
                "expected an attribute property path"@,
            ),
        ),
        Some((prim, name)) => match g.stage.targets(prim, name) {
            Ok(list) => Ok(list),
            Err(e) => Err(read_problem(g, attribute, e)),
        },
    }
}

/// The one source of a required input.
pub open spec fn only_source(g: Graph, attribute: Seq<char>) -> Result<Seq<char>, DiagnosticView> {
    match sources_of(g, attribute) {
        Err(d) => Err(d),
        Ok(list) => if list.len() == 1 {
            Ok(list[0])
        } else if list.len() == 0 {
            Err(
                error_view(
                    DiagnosticCode::MissingValue,
                    g.material,
                    Some(owning_prim(attribute)),
                    Some(attribute),
                    "required input is not connected"@,
                ),
            )
        } else {
            Err(
                error_view(
                    DiagnosticCode::AmbiguousConnection,
                    g.material,
                    Some(owning_prim(attribute)),
                    Some(attribute),
                    "required input has "@ + decimal(list.len()) + " sources"@,
                ),
            )
        },
    }
}

/// The identifier of a shader prim.
pub open spec fn shader_name(g: Graph, prim: Seq<char>) -> Result<Seq<char>, DiagnosticView> {
    match appended(prim, "info:id"@) {
        Err(e) => Err(path_problem(g, prim, e)),
        Ok(id_path) => match g.stage.default_value(prim, "info:id"@) {
            Err(e) => Err(read_problem(g, id_path, e)),
            Ok(found) => {
                let missing = Err::<Seq<char>, DiagnosticView>(
                    error_view(
                        DiagnosticCode::UnknownNodeDef,
                        g.material,
                        Some(prim),
                        Some(id_path),
                        "shader has no token/string info:id"@,
                    ),
                );
                match found {
                    Some(authored) => match authored.value {
                        Value::Token(id) => Ok(id@),
                        Value::Text(id) => Ok(id@),
                        _ => missing,
                    },
                    None => missing,
                }
            },
        },
    }
}

/// The path that an attribute handle carries: the property's, or the prim's
/// where no property path can be formed.
pub open spec fn handle_path(prim: Seq<char>, name: Seq<char>) -> Seq<char> {
    match appended(prim, name) {
        Ok(p) => p,
        Err(_) => prim,
    }
}

/// Whether the shader is implemented by its identifier.
pub open spec fn id_implementation(g: Graph, prim: Seq<char>) -> Result<(), DiagnosticView> {
    let path = handle_path(prim, "info:implementationSource"@);
    match g.stage.default_value(prim, "info:implementationSource"@) {
        Err(e) => Err(read_problem(g, path, e)),
        Ok(found) => {
            let source = match found {
                None => "id"@,
                Some(authored) => match authored.value {
                    Value::Token(s) => s@,
                    Value::Text(s) => s@,
                    _ => authored.shown@,
                },
            };
            if source == "id"@ {
                Ok(())
            } else {
                Err(
                    error_view(
                        DiagnosticCode::UnsupportedImplementation,
                        g.material,
                        Some(prim),
                        Some(path),
                        "implementationSource "@ + quoted(source) + " is not a registry id"@,
                    ),
                )
            }
        },
    }
}

/// The descriptor of a node.
pub open spec fn descriptor_of(g: Graph, prim: Seq<char>, id: Seq<char>) -> Result<
    CoverageView,
    DiagnosticView,
> {
    match find_node(g.nodes, id) {
        Some(node) => Ok(node),
        None => Err(
            error_view(
                DiagnosticCode::UnknownNodeDef,
                g.material,
                Some(prim),
                None,
                "NodeDef "@ + id + " is absent from the MaterialX registry"@,
            ),
        ),
    }
}

/// A required input port of a descriptor.
pub open spec fn required_port(node: CoverageView, name: Seq<char>) -> Result<
    PortView,
    DiagnosticView,
> {
    match find_port(node.inputs, name) {
        Some(port) => Ok(port),
        None => Err(
            error_view(
                DiagnosticCode::MissingValue,
                "<registry>"@,
                Some(node.nodedef),
                Some("inputs:"@ + name),
                "host descriptor is missing a required port"@,
            ),
        ),
    }
}

/// The code that reads a uniform slot as a value of the given type.
pub open spec fn slot_code(index: nat, materialx_type: Seq<char>) -> Option<Seq<char>> {
    let value = "materialx.values["@ + decimal(index) + "]"@;
    if materialx_type == "float"@ {
        Some(value + ".x"@)
    } else if materialx_type == "integer"@ {
        Some("i32("@ + value + ".x)"@)
    } else if materialx_type == "boolean"@ {
        Some(value + ".x != 0.0"@)
    } else if materialx_type == "vector2"@ {
        Some(value + ".xy"@)
    } else if materialx_type == "color3"@ || materialx_type == "vector3"@ {
        Some(value + ".xyz"@)
    } else if materialx_type == "color4"@ || materialx_type == "vector4"@ {
        Some(value)
    } else {
        None
    }
}

/// A new uniform slot and the expression that reads it.
pub open spec fn new_uniform(
    g: Graph,
    w: Work,
    port: PortView,
    slot: SlotView,
    attribute: Seq<char>,
) -> Result<(Work, ExpressionView), DiagnosticView> {
    if w.uniforms.len() == MAX_UNIFORMS {
        Err(
            error_view(
                DiagnosticCode::ResourceLimit,
                g.material,
                Some(owning_prim(attribute)),
                Some(attribute),
                "first slice supports at most 64 uniform values"@,
            ),
        )
    } else {
        match slot_code(w.uniforms.len(), port.materialx_type) {
            Some(code) => Ok(
                (
                    Work { uniforms: w.uniforms.push(slot), ..w },
                    ExpressionView { code, materialx_type: port.materialx_type },
                ),
            ),
            None => Err(
                error_view(
                    DiagnosticCode::UnsupportedFeature,
                    g.material,
                    Some(owning_prim(attribute)),
                    Some(attribute),
                    "uniform MaterialX type "@ + port.materialx_type + " is not supported yet"@,
                ),
            ),
        }
    }
}

/// A type clash between an input and what it is connected to.
pub open spec fn type_problem(
    g: Graph,
    found: Seq<char>,
    port: PortView,
    attribute: Seq<char>,
) -> DiagnosticView {
    error_view(
        DiagnosticCode::TypeMismatch,
        g.material,
        Some(owning_prim(attribute)),
        Some(attribute),
        "input expects "@ + port.materialx_type + ", connected output is "@ + found,
    )
}

/// An input that nothing is connected to: its authored value, else the
/// descriptor's default. The flag tells whether a value was authored.
pub open spec fn lower_constant(
    g: Graph,
    w: Work,
    prim: Seq<char>,
    port: PortView,
    attribute: Seq<char>,
) -> Result<(Work, ExpressionView, bool), DiagnosticView> {
    match g.stage.timed_value(prim, "inputs:"@ + port.name) {
        Err(e) => Err(read_problem(g, attribute, e)),
        Ok(Some(authored)) => match authored_slot(port.materialx_type, authored) {
            Err(message) => Err(
                error_view(
                    DiagnosticCode::TypeMismatch,
                    g.material,
                    Some(owning_prim(attribute)),
                    Some(attribute),
                    message,
                ),
            ),
            Ok(slot) => match new_uniform(g, w, port, slot, attribute) {
                Err(d) => Err(d),
                Ok((w1, e)) => Ok((w1, e, true)),
            },
        },
        Ok(None) => match port.default_value {
            None => Err(
                error_view(
                    DiagnosticCode::MissingValue,
                    g.material,
                    Some(prim),
                    Some(attribute),
                    "input "@ + port.name
                        + " has no connection, authored value, or NodeDef default"@,
                ),
            ),
            Some(text) => match default_slot(port.materialx_type, text) {
                Err(message) => Err(
                    error_view(
                        DiagnosticCode::TypeMismatch,
                        g.material,
                        Some(prim),
                        Some(attribute),
                        message,
                    ),
                ),
                Ok(slot) => match new_uniform(g, w, port, slot, attribute) {
                    Err(d) => Err(d),
                    Ok((w1, e)) => Ok((w1, e, false)),
                },
            },
        },
    }
}

/// One input of a node: what it is connected to, else its constant. The flag
/// tells whether it is connected or authored.
pub open spec fn lower_input(
    g: Graph,
    visiting: Set<Seq<char>>,
    w: Work,
    prim: Seq<char>,
    port: PortView,
) -> Result<(Work, ExpressionView, bool), DiagnosticView>
    decreases room(g, visiting), 1int, 0int,
{
    match appended(prim, "inputs:"@ + port.name) {
        Err(e) => Err(path_problem(g, prim, e)),
        Ok(attribute) => match sources_of(g, attribute) {
            Err(d) => Err(d),
            Ok(sources) => if sources.len() > 1 {
                Err(
                    error_view(
                        DiagnosticCode::AmbiguousConnection,
                        g.material,
                        Some(prim),
                        Some(attribute),
                        "input has "@ + decimal(sources.len())
                            + " composed sources; exactly one is required"@,
                    ),
                )
            } else if sources.len() == 1 {
                match lower_source(g, visiting, w, sources[0]) {
                    Err(d) => Err(d),
                    Ok((w1, e)) => if e.materialx_type == port.materialx_type {
                        Ok((w1, e, true))
                    } else {
                        Err(type_problem(g, e.materialx_type, port, attribute))
                    },
                }
            } else {
                lower_constant(g, w, prim, port, attribute)
            },
        },
    }
}

/// A connection source: its remembered expression, or a new lowering that is
/// then remembered. A source that is being lowered already closes a cycle.
pub open spec fn lower_source(
    g: Graph,
    visiting: Set<Seq<char>>,
    w: Work,
    source: Seq<char>,
) -> Result<(Work, ExpressionView), DiagnosticView>
    decreases room(g, visiting), 0int, 0int,
    when connected(g.stage).contains(source) via lower_source_terminates
{
    if w.memo.contains_key(source) {
        Ok((w, w.memo[source]))
    } else if visiting.contains(source) {
        Err(
            error_view(
                DiagnosticCode::ConnectionCycle,
                g.material,
                Some(owning_prim(source)),
                Some(source),
                "cycle detected while lowering MaterialX connections"@,
            ),
        )
    } else {
        match lower_fresh(g, visiting.insert(source), w, source) {
            Err(d) => Err(d),
            Ok((w1, e)) => Ok((Work { memo: w1.memo.insert(source, e), ..w1 }, e)),
        }
    }
}

#[via_fn]
proof fn lower_source_terminates(
    g: Graph,
    visiting: Set<Seq<char>>,
    w: Work,
    source: Seq<char>,
) {
    if !visiting.contains(source) {
        room_shrinks(g, visiting, source);
    }
}

/// Starting on a new source leaves fewer.
pub proof fn room_shrinks(g: Graph, visiting: Set<Seq<char>>, source: Seq<char>)
    requires
        connected(g.stage).contains(source),
        !visiting.contains(source),
    ensures
        room(g, visiting.insert(source)) < room(g, visiting),
{
    vstd::seq_lib::seq_to_set_is_finite(prim_list_targets(g.stage.prims@));
    let all = connected(g.stage);
    assert(all.difference(visiting.insert(source)) =~= all.difference(visiting).remove(source));
}

/// A connection source that was not lowered before. Material and NodeGraph
/// properties and all inputs are interfaces, which are followed; any other
/// source has to be a shader output.
pub open spec fn lower_fresh(
    g: Graph,
    visiting: Set<Seq<char>>,
    w: Work,
    source: Seq<char>,
) -> Result<(Work, ExpressionView), DiagnosticView>
    decreases room(g, visiting), 4int, 0int,
{
    match property_split(source) {
        None => Err(
            error_view(
                DiagnosticCode::InvalidConnection,
                g.material,
                None,
                Some(source),
                "connection target is not a property path"@,
            ),
        ),
        Some((prim, property)) => match g.stage.type_of(prim) {
            Err(e) => Err(read_problem(g, source, e)),
            Ok(prim_type) => if prim_type == Some("Material"@) || prim_type == Some("NodeGraph"@)
                || "inputs:"@.is_prefix_of(property) {
                match sources_of(g, source) {
                    Err(d) => Err(d),
                    Ok(sources) => if sources.len() > 1 {
                        Err(
                            error_view(
                                DiagnosticCode::AmbiguousConnection,
                                g.material,
                                Some(prim),
                                Some(source),
                                "interface property resolves to multiple sources"@,
                            ),
                        )
                    } else if sources.len() == 1 {
                        lower_source(g, visiting, w, sources[0])
                    } else {
                        Err(
                            error_view(
                                DiagnosticCode::InvalidConnection,
                                g.material,
                                Some(prim),
                                Some(source),
                                "interface property has no value-producing connection"@,
                            ),
                        )
                    },
                }
            } else if prim_type != Some("Shader"@) || !"outputs:"@.is_prefix_of(property) {
                Err(
                    error_view(
                        DiagnosticCode::InvalidConnection,
                        g.material,
                        Some(prim),
                        Some(source),
                        "connection target is not a Shader output"@,
                    ),
                )
            } else {
                lower_node(g, visiting, w, prim, without_leading(property, "outputs:"@))
            },
        },
    }
}

/// The output of a descriptor that a connection means: the one it names, or
/// the only one there is.
pub open spec fn chosen_output(
    g: Graph,
    prim: Seq<char>,
    id: Seq<char>,
    node: CoverageView,
    output_name: Seq<char>,
) -> Result<PortView, DiagnosticView> {
    match find_port(node.outputs, output_name) {
        Some(port) => Ok(port),
        None => if node.outputs.len() == 1 {
            Ok(node.outputs[0])
        } else {
            Err(
                error_view(
                    DiagnosticCode::UnknownOutput,
                    g.material,
                    Some(prim),
                    Some("outputs:"@ + output_name),
                    "NodeDef "@ + id + " has no output named "@ + output_name,
                ),
            )
        },
    }
}

/// The name of the next generated variable.
pub open spec fn variable_name(index: nat) -> Seq<char> {
    "mx_node_"@ + decimal(index)
}

/// The work after a call of `symbol` from `module` is written into a new
/// variable.
pub open spec fn with_call(
    w: Work,
    module: Seq<char>,
    symbol: Seq<char>,
    arguments: Seq<char>,
) -> Work {
    Work {
        modules: with_module(w.modules, module),
        imports: with_import(w.imports, (module, symbol)),
        lines: w.lines.push(
            "    let "@ + variable_name(w.lines.len()) + " = "@ + symbol + "("@ + arguments + ");"@,
        ),
        ..w
    }
}

/// A node of which the output `output_name` is wanted.
pub open spec fn lower_node(
    g: Graph,
    visiting: Set<Seq<char>>,
    w: Work,
    prim: Seq<char>,
    output_name: Seq<char>,
) -> Result<(Work, ExpressionView), DiagnosticView>
    decreases room(g, visiting), 3int, 0int,
{
    match shader_name(g, prim) {
        Err(d) => Err(d),
        Ok(id) => match id_implementation(g, prim) {
            Err(d) => Err(d),
            Ok(_) => match descriptor_of(g, prim, id) {
                Err(d) => Err(d),
                Ok(node) => match chosen_output(g, prim, id, node, output_name) {
                    Err(d) => Err(d),
                    Ok(output) => if id == "ND_texcoord_vector2"@ {
                        Ok(
                            (
                                w,
                                ExpressionView {
                                    code: "uv"@,
                                    materialx_type: output.materialx_type,
                                },
                            ),
                        )
                    } else if id == "ND_image_color3"@ {
                        lower_image(g, visiting, w, prim, node, output)
                    } else if !is_callable(node) {
                        Err(
                            error_view(
                                DiagnosticCode::UnsupportedFeature,
                                g.material,
                                Some(prim),
                                None,
                                "NodeDef "@ + id + " is "@ + node.status + ": "@ + (
                                match node.reason {
                                    Some(reason) => reason,
                                    None => "no implementation"@,
                                }),
                            ),
                        )
                    } else {
                        match lower_arguments(
                            g,
                            visiting,
                            w,
                            prim,
                            id,
                            node.inputs,
                            node.inputs.len(),
                        ) {
                            Err(d) => Err(d),
                            Ok((w1, codes)) => Ok(
                                (
                                    with_call(w1, node.module->0, node.symbol->0, join(codes, ", "@)),
                                    ExpressionView {
                                        code: variable_name(w1.lines.len()),
                                        materialx_type: output.materialx_type,
                                    },
                                ),
                            ),
                        }
                    },
                },
            },
        },
    }
}

/// The first `count` inputs of a node, in the descriptor's order.
pub open spec fn lower_arguments(
    g: Graph,
    visiting: Set<Seq<char>>,
    w: Work,
    prim: Seq<char>,
    id: Seq<char>,
    inputs: Seq<PortView>,
    count: nat,
) -> Result<(Work, Seq<Seq<char>>), DiagnosticView>
    decreases room(g, visiting), 2int, count,
{
    if count == 0 {
        Ok((w, Seq::empty()))
    } else {
        match lower_arguments(g, visiting, w, prim, id, inputs, (count - 1) as nat) {
            Err(d) => Err(d),
            Ok((w1, codes)) => {
                let port = inputs[count - 1];
                if port.wesl_type is None {
                    Err(
                        error_view(
                            DiagnosticCode::UnsupportedFeature,
                            g.material,
                            Some(prim),
                            Some("inputs:"@ + port.name),
                            "host-only input on "@ + id + " needs special lowering"@,
                        ),
                    )
                } else {
                    match lower_input(g, visiting, w1, prim, port) {
                        Err(d) => Err(d),
                        Ok((w2, e, _)) => Ok((w2, codes.push(e.code))),
                    }
                }
            },
        }
    }
}

/// The file of an image node, with whether its asset failed to resolve.
pub open spec fn image_file(
    g: Graph,
    prim: Seq<char>,
    file_port: PortView,
    attribute: Seq<char>,
) -> Result<(Seq<char>, bool), DiagnosticView> {
    match g.stage.timed_value(prim, "inputs:file"@) {
        Err(e) => Err(read_problem(g, attribute, e)),
        Ok(None) => Ok(
            (
                match file_port.default_value {
                    Some(text) => text,
                    None => Seq::empty(),
                },
                false,
            ),
        ),
        Ok(Some(authored)) => match authored.value {
            Value::Asset { authored: path, resolved } => match resolved {
                Some(found) => Ok((found@, false)),
                None => Ok((path@, true)),
            },
            Value::Text(path) => Ok((path@, false)),
            Value::Token(path) => Ok((path@, false)),
            _ => Err(
                error_view(
                    DiagnosticCode::TypeMismatch,
                    g.material,
                    Some(prim),
                    Some(attribute),
                    "filename input has incompatible value "@ + authored.shown@,
                ),
            ),
        },
    }
}

/// The texture of an image node.
pub open spec fn image_texture(
    g: Graph,
    w: Work,
    prim: Seq<char>,
    node: CoverageView,
) -> Result<TextureView, DiagnosticView> {
    if w.textures.len() == MAX_TEXTURES {
        Err(
            error_view(
                DiagnosticCode::ResourceLimit,
                g.material,
                Some(prim),
                None,
                "first slice supports at most 4 image nodes per material"@,
            ),
        )
    } else {
        match required_port(node, "file"@) {
            Err(d) => Err(d),
            Ok(file_port) => match appended(prim, "inputs:file"@) {
                Err(e) => Err(path_problem(g, prim, e)),
                Ok(attribute) => match sources_of(g, attribute) {
                    Err(d) => Err(d),
                    Ok(sources) => if sources.len() > 0 {
                        Err(
                            error_view(
                                DiagnosticCode::UnsupportedFeature,
                                g.material,
                                Some(prim),
                                Some(attribute),
                                "connected filename inputs are not supported in the first slice"@,
                            ),
                        )
                    } else {
                        match image_file(g, prim, file_port, attribute) {
                            Err(d) => Err(d),
                            Ok((file, unresolved)) => if file.len() == 0 {
                                Err(
                                    error_view(
                                        DiagnosticCode::MissingAsset,
                                        g.material,
                                        Some(prim),
                                        Some(attribute),
                                        "image node has no texture asset"@,
                                    ),
                                )
                            } else if unresolved || (is_absolute(file) && views(
                                g.stage.absent_files@,
                            ).contains(file)) {
                                Err(
                                    error_view(
                                        DiagnosticCode::MissingAsset,
                                        g.material,
                                        Some(prim),
                                        Some(attribute),
                                        "resolved texture asset does not exist: "@ + file,
                                    ),
                                )
                            } else {
                                Ok(
                                    TextureView {
                                        path: file,
                                        is_srgb: true,
                                        u_address_mode: "periodic"@,
                                        v_address_mode: "periodic"@,
                                        filter_type: "linear"@,
                                    },
                                )
                            },
                        }
                    },
                },
            },
        }
    }
}

/// The arguments of an image call on texture `index`.
pub open spec fn image_arguments(index: nat, default: Seq<char>, texcoord: Seq<char>) -> Seq<char> {
    "materialx_texture_"@ + decimal(index) + ", materialx_sampler_"@ + decimal(index) + ", "@
        + default + ", "@ + texcoord + ", vec2f(1.0), vec2f(0.0)"@
}

/// An image node: a new texture, then the call that samples it.
pub open spec fn lower_image(
    g: Graph,
    visiting: Set<Seq<char>>,
    w: Work,
    prim: Seq<char>,
    node: CoverageView,
    output: PortView,
) -> Result<(Work, ExpressionView), DiagnosticView>
    decreases room(g, visiting), 2int, 0int,
{
    match image_texture(g, w, prim, node) {
        Err(d) => Err(d),
        Ok(texture) => {
            let w1 = Work { textures: w.textures.push(texture), ..w };
            match required_port(node, "default"@) {
                Err(d) => Err(d),
                Ok(default_port) => match lower_input(g, visiting, w1, prim, default_port) {
                    Err(d) => Err(d),
                    Ok((w2, default, _)) => match required_port(node, "texcoord"@) {
                        Err(d) => Err(d),
                        Ok(texcoord_port) => match lower_input(
                            g,
                            visiting,
                            w2,
                            prim,
                            texcoord_port,
                        ) {
                            Err(d) => Err(d),
                            Ok((w3, texcoord, _)) => Ok(
                                (
                                    with_call(
                                        w3,
                                        node.module->0,
                                        node.symbol->0,
                                        image_arguments(
                                            w.textures.len(),
                                            default.code,
                                            texcoord.code,
                                        ),
                                    ),
                                    ExpressionView {
                                        code: variable_name(w3.lines.len()),
                                        materialx_type: output.materialx_type,
                                    },
                                ),
                            ),
                        },
                    },
                },
            }
        },
    }
}

/// The surface terminal of the material in output `name`, if it is connected.
pub open spec fn terminal_in(g: Graph, name: Seq<char>) -> Result<Option<Seq<char>>, DiagnosticView> {
    match appended(g.material, name) {
        Err(e) => Err(path_problem(g, name, e)),
        Ok(path) => match sources_of(g, path) {
            Err(d) => Err(d),
            Ok(sources) => if sources.len() > 1 {
                Err(
                    error_view(
                        DiagnosticCode::AmbiguousConnection,
                        g.material,
                        None,
                        Some(path),
                        "surface terminal has "@ + decimal(sources.len())
                            + " composed sources; exactly one is required"@,
                    ),
                )
            } else if sources.len() == 1 {
                Ok(Some(sources[0]))
            } else {
                Ok(None)
            },
        },
    }
}

/// The surface terminal: the MaterialX output, and only where that is
/// unconnected the universal one.
pub open spec fn terminal(g: Graph) -> Result<Seq<char>, DiagnosticView> {
    match terminal_in(g, "outputs:mtlx:surface"@) {
        Err(d) => Err(d),
        Ok(Some(source)) => Ok(source),
        Ok(None) => match terminal_in(g, "outputs:surface"@) {
            Err(d) => Err(d),
            Ok(Some(source)) => Ok(source),
            Ok(None) => Err(
                error_view(
                    DiagnosticCode::MissingTerminal,
                    g.material,
                    None,
                    None,
                    "neither outputs:mtlx:surface nor universal outputs:surface is connected"@,
                ),
            ),
        },
    }
}

/// The shader output that the terminal means, seen through a surface material
/// node.
pub open spec fn surface_output(g: Graph, terminal: Seq<char>) -> Result<
    Seq<char>,
    DiagnosticView,
> {
    match property_split(terminal) {
        None => Err(
            error_view(
                DiagnosticCode::InvalidConnection,
                g.material,
                None,
                Some(terminal),
                "surface connection target is not a property path"@,
            ),
        ),
        Some((prim, property)) => if !"outputs:"@.is_prefix_of(property) {
            Err(
                error_view(
                    DiagnosticCode::InvalidConnection,
                    g.material,
                    Some(prim),
                    Some(terminal),
                    "surface terminal must connect to a shader output"@,
                ),
            )
        } else {
            match shader_name(g, prim) {
                Err(d) => Err(d),
                Ok(id) => if id == "ND_surfacematerial"@ {
                    match appended(prim, "inputs:surfaceshader"@) {
                        Err(e) => Err(path_problem(g, prim, e)),
                        Ok(input) => only_source(g, input),
                    }
                } else {
                    Ok(terminal)
                },
            }
        },
    }
}

/// The first `count` of the named inputs of the surface node.
pub open spec fn lower_ports(
    g: Graph,
    w: Work,
    prim: Seq<char>,
    node: CoverageView,
    names: Seq<Seq<char>>,
    count: nat,
) -> Result<(Work, Seq<(ExpressionView, bool)>), DiagnosticView>
    decreases count,
{
    if count == 0 {
        Ok((w, Seq::empty()))
    } else {
        match lower_ports(g, w, prim, node, names, (count - 1) as nat) {
            Err(d) => Err(d),
            Ok((w1, done)) => match required_port(node, names[count - 1]) {
                Err(d) => Err(d),
                Ok(port) => match lower_input(g, Set::empty(), w1, prim, port) {
                    Err(d) => Err(d),
                    Ok((w2, e, active)) => Ok((w2, done.push((e, active)))),
                },
            },
        }
    }
}

/// The Standard Surface inputs that the lowering reads, in order.
pub open spec fn surface_inputs() -> Seq<Seq<char>> {
    seq![
        "base"@,
        "base_color"@,
        "metalness"@,
        "specular_roughness"@,
        "emission"@,
        "emission_color"@,
        "opacity"@,
        "normal"@,
    ]
}

/// The surface that the lowered inputs make.
pub open spec fn surface_of(done: Seq<(ExpressionView, bool)>) -> SurfaceView {
    SurfaceView {
        base_color: "("@ + done[1].0.code + " * vec3f("@ + done[0].0.code + "))"@,
        metalness: done[2].0.code,
        roughness: done[3].0.code,
        emission: "("@ + done[5].0.code + " * vec3f("@ + done[4].0.code + "))"@,
        opacity: "dot("@ + done[6].0.code + ", vec3f(0.299, 0.587, 0.114))"@,
        normal: if done[7].1 {
            Some(done[7].0.code)
        } else {
            None
        },
        alpha_blend: done[6].1,
    }
}

/// The warnings that every lowered Standard Surface carries.
pub open spec fn surface_warnings(
    g: Graph,
    prim: Seq<char>,
    done: Seq<(ExpressionView, bool)>,
) -> Seq<DiagnosticView> {
    let first = warning_view(
        DiagnosticCode::UnsupportedFeature,
        g.material,
        Some(prim),
        None,
        "MaterialX Standard Surface is approximated through Bevy PBR; unsupported lobes use Bevy defaults"@,
    );
    if done[7].1 {
        seq![
            first,
            warning_view(
                DiagnosticCode::UnsupportedFeature,
                g.material,
                Some(prim),
                Some("inputs:normal"@),
                "the first slice treats the compiled normal as world-space"@,
            ),
        ]
    } else {
        seq![first]
    }
}

/// The Standard Surface whose output is `output`.
pub open spec fn lower_surface(g: Graph, output: Seq<char>) -> Result<
    (Work, SurfaceView, Seq<DiagnosticView>),
    DiagnosticView,
> {
    let prim = owning_prim(output);
    match shader_name(g, prim) {
        Err(d) => Err(d),
        Ok(id) => if id != "ND_standard_surface_surfaceshader"@ {
            Err(
                error_view(
                    DiagnosticCode::UnknownNodeDef,
                    g.material,
                    Some(prim),
                    Some(output),
                    "expected ND_standard_surface_surfaceshader, found "@ + id,
                ),
            )
        } else {
            match id_implementation(g, prim) {
                Err(d) => Err(d),
                Ok(_) => match descriptor_of(g, prim, id) {
                    Err(d) => Err(d),
                    Ok(node) => match lower_ports(
                        g,
                        no_work(),
                        prim,
                        node,
                        surface_inputs(),
                        surface_inputs().len(),
                    ) {
                        Err(d) => Err(d),
                        Ok((w, done)) => Ok(
                            (w, surface_of(done), surface_warnings(g, prim, done)),
                        ),
                    },
                },
            }
        },
    }
}

/// A compiled graph, apart from the hash of its source.
#[verifier::ext_equal]
pub struct CompiledView {
    pub material: Seq<char>,
    pub wesl: Seq<char>,
    pub uniforms: Seq<SlotView>,
    pub textures: Seq<TextureView>,
    pub alpha_blend: bool,
    pub transmission: bool,
    pub required_modules: Seq<Seq<char>>,
    pub diagnostics: Seq<DiagnosticView>,
}

/// What the material compiles to, or the diagnostic it fails with.
pub open spec fn compiled(g: Graph) -> Result<CompiledView, DiagnosticView> {
    match terminal(g) {
        Err(d) => Err(d),
        Ok(source) => match surface_output(g, source) {
            Err(d) => Err(d),
            Ok(output) => match lower_surface(g, output) {
                Err(d) => Err(d),
                Ok((w, surface, warnings)) => Ok(
                    CompiledView {
                        material: g.material,
                        wesl: root_text(w.imports, w.lines, surface),
                        uniforms: w.uniforms,
                        textures: w.textures,
                        alpha_blend: surface.alpha_blend,
                        transmission: false,
                        required_modules: w.modules,
                        diagnostics: warnings,
                    },
                ),
            },
        },
    }
}

/// The composed sources of an output of the material; none where they cannot
/// be read.
pub open spec fn readable_sources(g: Graph, name: Seq<char>) -> Seq<Seq<char>> {
    match appended(g.material, name) {
        Err(_) => Seq::empty(),
        Ok(path) => match property_split(path) {
            None => Seq::empty(),
            Some((prim, property)) => match g.stage.targets(prim, property) {
                Ok(list) => list,
                Err(_) => Seq::empty(),
            },
        },
    }
}

/// The identifier that a prim carries, where one can be read.
pub open spec fn readable_id(g: Graph, prim: Seq<char>) -> Option<Seq<char>> {
    match g.stage.default_value(prim, "info:id"@) {
        Ok(Some(authored)) => match authored.value {
            Value::Token(id) => Some(id@),
            Value::Text(id) => Some(id@),
            _ => None,
        },
        _ => None,
    }
}

/// Whether the material is routed to the graph compiler: its MaterialX
/// terminal is connected, or its universal terminal has one source that is a
/// NodeGraph or a registered shader.
pub open spec fn opts_in(g: Graph) -> bool {
    readable_sources(g, "outputs:mtlx:surface"@).len() > 0 || {
        let universal = readable_sources(g, "outputs:surface"@);
        universal.len() == 1 && {
            let prim = owning_prim(universal[0]);
            g.stage.type_of(prim) == Ok::<Option<Seq<char>>, Seq<char>>(Some("NodeGraph"@)) || (
            readable_id(g, prim) matches Some(id) && find_node(g.nodes, id) is Some)
        }
    }
}

} // verus!
