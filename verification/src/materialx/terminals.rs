//! Why the universal terminal of a material does not matter where its
//! MaterialX terminal is connected.

use super::compiler::sources_are_connected;
use super::diagnostic::{DiagnosticCode, DiagnosticView};
use super::graph::{
    chosen_output, compiled, connected, descriptor_of, id_implementation, image_texture, lower_arguments, lower_fresh,
    lower_image, lower_input, lower_node, lower_ports, lower_source, lower_surface, no_work,
    required_port, room, room_shrinks, shader_name, sources_of, surface_inputs, surface_output,
    terminal, terminal_in, Graph, Work,
};
use super::registry::{CoverageView, PortView};
use crate::path::{appended, owning_prim, property_split};
use crate::text::{views, without_leading};
use vstd::prelude::*;

verus! {

/// The two graphs differ at most in what properties connect to that are no
/// inputs and that nothing connects to, such as the outputs of a material:
/// they have the same material, descriptors, prim types, values and missing
/// files, every input has the same sources, and so has every property that
/// something connects to.
pub open spec fn same_inputs(a: Graph, b: Graph) -> bool {
    &&& a.material == b.material
    &&& a.nodes == b.nodes
    &&& views(a.stage.absent_files@) == views(b.stage.absent_files@)
    &&& forall|prim: Seq<char>| #[trigger] a.stage.type_of(prim) == b.stage.type_of(prim)
    &&& forall|prim: Seq<char>, name: Seq<char>| #[trigger]
        a.stage.default_value(prim, name) == b.stage.default_value(prim, name)
    &&& forall|prim: Seq<char>, name: Seq<char>| #[trigger]
        a.stage.timed_value(prim, name) == b.stage.timed_value(prim, name)
    &&& forall|prim: Seq<char>, name: Seq<char>|
        (#[trigger] appended(prim, "inputs:"@ + name)) matches Ok(path) ==> sources_of(a, path)
            == sources_of(b, path)
    &&& forall|source: Seq<char>| #[trigger]
        connected(a.stage).contains(source) ==> sources_of(a, source) == sources_of(b, source)
}

proof fn same_lowered_input(
    a: Graph,
    b: Graph,
    visiting: Set<Seq<char>>,
    w: Work,
    prim: Seq<char>,
    port: PortView,
)
    requires
        same_inputs(a, b),
    ensures
        lower_input(a, visiting, w, prim, port) == lower_input(b, visiting, w, prim, port),
    decreases room(a, visiting), 1int, 0int,
{
    if let Ok(attribute) = appended(prim, "inputs:"@ + port.name) {
        assert(sources_of(a, attribute) == sources_of(b, attribute));
        assert(a.stage.timed_value(prim, "inputs:"@ + port.name) == b.stage.timed_value(
            prim,
            "inputs:"@ + port.name,
        ));
        if let Ok(sources) = sources_of(a, attribute) {
            if sources.len() == 1 {
                sources_are_connected(a, attribute, 0);
                sources_are_connected(b, attribute, 0);
                same_lowered_source(a, b, visiting, w, sources[0]);
            }
        }
    }
}

proof fn same_lowered_source(
    a: Graph,
    b: Graph,
    visiting: Set<Seq<char>>,
    w: Work,
    source: Seq<char>,
)
    requires
        same_inputs(a, b),
        connected(a.stage).contains(source),
        connected(b.stage).contains(source),
    ensures
        lower_source(a, visiting, w, source) == lower_source(b, visiting, w, source),
    decreases room(a, visiting), 0int, 0int,
{
    if !w.memo.contains_key(source) && !visiting.contains(source) {
        room_shrinks(a, visiting, source);
        same_fresh_source(a, b, visiting.insert(source), w, source);
    }
}

proof fn same_fresh_source(
    a: Graph,
    b: Graph,
    visiting: Set<Seq<char>>,
    w: Work,
    source: Seq<char>,
)
    requires
        same_inputs(a, b),
        connected(a.stage).contains(source),
    ensures
        lower_fresh(a, visiting, w, source) == lower_fresh(b, visiting, w, source),
    decreases room(a, visiting), 4int, 0int,
{
    if let Some((prim, property)) = property_split(source) {
        assert(a.stage.type_of(prim) == b.stage.type_of(prim));
        assert(sources_of(a, source) == sources_of(b, source));
        if let Ok(sources) = sources_of(a, source) {
            if sources.len() == 1 {
                sources_are_connected(a, source, 0);
                sources_are_connected(b, source, 0);
                same_lowered_source(a, b, visiting, w, sources[0]);
            }
        }
        same_node(a, b, visiting, w, prim, without_leading(property, "outputs:"@));
    }
}

proof fn same_node(
    a: Graph,
    b: Graph,
    visiting: Set<Seq<char>>,
    w: Work,
    prim: Seq<char>,
    output_name: Seq<char>,
)
    requires
        same_inputs(a, b),
    ensures
        lower_node(a, visiting, w, prim, output_name) == lower_node(
            b,
            visiting,
            w,
            prim,
            output_name,
        ),
    decreases room(a, visiting), 3int, 0int,
{
    same_identity(a, b, prim);
    if let Ok(id) = shader_name(a, prim) {
        if let Ok(node) = descriptor_of(a, prim, id) {
            if let Ok(output) = chosen_output(a, prim, id, node, output_name) {
                same_image(a, b, visiting, w, prim, node, output);
                same_arguments(a, b, visiting, w, prim, id, node.inputs, node.inputs.len());
            }
        }
    }
}

proof fn same_identity(a: Graph, b: Graph, prim: Seq<char>)
    requires
        same_inputs(a, b),
    ensures
        shader_name(a, prim) == shader_name(b, prim),
        id_implementation(a, prim) == id_implementation(b, prim),
{
    assert(a.stage.default_value(prim, "info:id"@) == b.stage.default_value(prim, "info:id"@));
    assert(a.stage.default_value(prim, "info:implementationSource"@) == b.stage.default_value(
        prim,
        "info:implementationSource"@,
    ));
}

proof fn same_arguments(
    a: Graph,
    b: Graph,
    visiting: Set<Seq<char>>,
    w: Work,
    prim: Seq<char>,
    id: Seq<char>,
    inputs: Seq<PortView>,
    count: nat,
)
    requires
        same_inputs(a, b),
    ensures
        lower_arguments(a, visiting, w, prim, id, inputs, count) == lower_arguments(
            b,
            visiting,
            w,
            prim,
            id,
            inputs,
            count,
        ),
    decreases room(a, visiting), 2int, count,
{
    if count > 0 {
        let before = (count - 1) as nat;
        same_arguments(a, b, visiting, w, prim, id, inputs, before);
        if let Ok((w1, codes)) = lower_arguments(a, visiting, w, prim, id, inputs, before) {
            same_lowered_input(a, b, visiting, w1, prim, inputs[count - 1]);
        }
    }
}

proof fn same_texture(a: Graph, b: Graph, w: Work, prim: Seq<char>, node: CoverageView)
    requires
        same_inputs(a, b),
    ensures
        image_texture(a, w, prim, node) == image_texture(b, w, prim, node),
{
    reveal_strlit("inputs:");
    reveal_strlit("file");
    reveal_strlit("inputs:file");
    assert("inputs:"@ + "file"@ =~= "inputs:file"@);
    assert(appended(prim, "inputs:"@ + "file"@) == appended(prim, "inputs:file"@));
    assert(a.stage.timed_value(prim, "inputs:file"@) == b.stage.timed_value(
        prim,
        "inputs:file"@,
    ));
}

proof fn same_image(
    a: Graph,
    b: Graph,
    visiting: Set<Seq<char>>,
    w: Work,
    prim: Seq<char>,
    node: CoverageView,
    output: PortView,
)
    requires
        same_inputs(a, b),
    ensures
        lower_image(a, visiting, w, prim, node, output) == lower_image(
            b,
            visiting,
            w,
            prim,
            node,
            output,
        ),
    decreases room(a, visiting), 2int, 0int,
{
    same_texture(a, b, w, prim, node);
    if let Ok(texture) = image_texture(a, w, prim, node) {
        let w1 = Work { textures: w.textures.push(texture), ..w };
        if let Ok(default_port) = required_port(node, "default"@) {
            same_lowered_input(a, b, visiting, w1, prim, default_port);
            if let Ok((w2, default, _)) = lower_input(a, visiting, w1, prim, default_port) {
                if let Ok(texcoord_port) = required_port(node, "texcoord"@) {
                    same_lowered_input(a, b, visiting, w2, prim, texcoord_port);
                }
            }
        }
    }
}

proof fn same_ports(
    a: Graph,
    b: Graph,
    prim: Seq<char>,
    node: CoverageView,
    names: Seq<Seq<char>>,
    count: nat,
)
    requires
        same_inputs(a, b),
    ensures
        lower_ports(a, no_work(), prim, node, names, count) == lower_ports(
            b,
            no_work(),
            prim,
            node,
            names,
            count,
        ),
    decreases count,
{
    if count > 0 {
        let before = (count - 1) as nat;
        same_ports(a, b, prim, node, names, before);
        if let Ok((w1, done)) = lower_ports(a, no_work(), prim, node, names, before) {
            if let Ok(port) = required_port(node, names[count - 1]) {
                same_lowered_input(a, b, Set::empty(), w1, prim, port);
            }
        }
    }
}

proof fn same_surface(a: Graph, b: Graph, output: Seq<char>)
    requires
        same_inputs(a, b),
    ensures
        lower_surface(a, output) == lower_surface(b, output),
{
    let prim = owning_prim(output);
    same_identity(a, b, prim);
    if let Ok(id) = shader_name(a, prim) {
        if let Ok(node) = descriptor_of(a, prim, id) {
            same_ports(a, b, prim, node, surface_inputs(), surface_inputs().len());
        }
    }
}

/// Where the MaterialX terminal of a material has its one source, what the
/// universal terminal connects to changes nothing of the compiled result, nor
/// of the diagnostic where there is none, as long as no node takes its input
/// from that terminal.
pub proof fn universal_terminal_is_ignored(a: Graph, b: Graph, source: Seq<char>)
    requires
        same_inputs(a, b),
        terminal_in(a, "outputs:mtlx:surface"@) == Ok::<Option<Seq<char>>, DiagnosticView>(
            Some(source),
        ),
        terminal_in(b, "outputs:mtlx:surface"@) == Ok::<Option<Seq<char>>, DiagnosticView>(
            Some(source),
        ),
    ensures
        compiled(a) == compiled(b),
{
    assert(terminal(a) == terminal(b));
    if let Some((prim, property)) = property_split(source) {
        same_identity(a, b, prim);
        reveal_strlit("inputs:");
        reveal_strlit("surfaceshader");
        reveal_strlit("inputs:surfaceshader");
        assert("inputs:"@ + "surfaceshader"@ =~= "inputs:surfaceshader"@);
        assert(appended(prim, "inputs:"@ + "surfaceshader"@) == appended(
            prim,
            "inputs:surfaceshader"@,
        ));
    }
    assert(surface_output(a, source) == surface_output(b, source));
    if let Ok(output) = surface_output(a, source) {
        same_surface(a, b, output);
    }
}

/// The graph fails to compile with a diagnostic of this kind.
pub open spec fn fails_as(g: Graph, code: DiagnosticCode) -> bool {
    compiled(g) is Err && compiled(g)->Err_0.code == code
}

/// The output of the material has more than one source.
pub open spec fn is_ambiguous(g: Graph, name: Seq<char>) -> bool {
    match appended(g.material, name) {
        Ok(path) => match sources_of(g, path) {
            Ok(sources) => sources.len() > 1,
            Err(_) => false,
        },
        Err(_) => false,
    }
}

/// The output of the material can be read and has no source.
pub open spec fn is_unconnected(g: Graph, name: Seq<char>) -> bool {
    terminal_in(g, name) == Ok::<Option<Seq<char>>, DiagnosticView>(None)
}

/// Without a source on either terminal there is nothing to compile, and with
/// several on the one that is looked at there is no telling which.
pub proof fn terminals_are_diagnosed(g: Graph)
    ensures
        is_unconnected(g, "outputs:mtlx:surface"@) && is_unconnected(g, "outputs:surface"@)
            ==> fails_as(g, DiagnosticCode::MissingTerminal),
        is_ambiguous(g, "outputs:mtlx:surface"@) ==> fails_as(
            g,
            DiagnosticCode::AmbiguousConnection,
        ),
        is_unconnected(g, "outputs:mtlx:surface"@) && is_ambiguous(g, "outputs:surface"@)
            ==> fails_as(g, DiagnosticCode::AmbiguousConnection),
{
}

} // verus!
