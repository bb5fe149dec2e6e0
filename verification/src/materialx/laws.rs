//! What holds of every compiled graph.

use super::compiler::{
    compile_outcome, keyed_by_source, sources_are_connected, CompiledMaterialX,
};
use super::diagnostic::{DiagnosticCode, DiagnosticView, Severity};
use super::emit::{names_texture, textures_named};
use super::graph::{
    chosen_output, compiled, connected, descriptor_of, id_implementation, image_arguments,
    image_texture, import_less, lower_arguments, lower_constant, lower_fresh, lower_image,
    lower_input, lower_node, lower_ports, lower_source, lower_surface, no_work, opts_in,
    required_port, room, room_shrinks, shader_name, sources_of, surface_inputs, surface_output,
    terminal, terminal_in, variable_name, with_call, with_import, with_module, ExpressionView,
    Graph, Work, MAX_TEXTURES, MAX_UNIFORMS,
};
use super::registry::{CoverageView, PortView};
use crate::hash::hashes_to;
use crate::path::{appended, property_split};
use crate::text::{decimal, decimal_is_injective, join, occurs, occurs_at, text_less, without_leading};
use vstd::prelude::*;

verus! {

/// The modules are in strictly ascending order.
pub open spec fn modules_ascend(list: Seq<Seq<char>>) -> bool {
    forall|i: int, j: int| 0 <= i < j < list.len() ==> text_less(#[trigger] list[i], #[trigger] list[j])
}

/// The imports are in strictly ascending order.
pub open spec fn imports_ascend(list: Seq<(Seq<char>, Seq<char>)>) -> bool {
    forall|i: int, j: int|
        0 <= i < j < list.len() ==> import_less(#[trigger] list[i], #[trigger] list[j])
}

/// Line `i` gives its value to variable `i`.
pub open spec fn defines_variable(line: Seq<char>, i: nat) -> bool {
    ("    let "@ + variable_name(i) + " = "@).is_prefix_of(line)
}

/// What the lowering keeps true of its work.
pub open spec fn sound(w: Work) -> bool {
    &&& w.uniforms.len() <= MAX_UNIFORMS
    &&& w.textures.len() <= MAX_TEXTURES
    &&& modules_ascend(w.modules)
    &&& imports_ascend(w.imports)
    &&& forall|i: int|
        0 <= i < w.lines.len() ==> defines_variable(#[trigger] w.lines[i], i as nat)
    &&& forall|p: (Seq<char>, Seq<char>)| #[trigger]
        w.imports.contains(p) ==> w.modules.contains(p.0)
}

/// `b` follows from `a` by more lowering: nothing is taken back, and every
/// texture that was added is sampled by some line.
pub open spec fn follows(a: Work, b: Work) -> bool {
    &&& a.uniforms.is_prefix_of(b.uniforms)
    &&& a.textures.is_prefix_of(b.textures)
    &&& a.lines.is_prefix_of(b.lines)
    &&& forall|i: nat|
        a.textures.len() <= i < b.textures.len() ==> #[trigger] names_texture(b.lines, i)
    &&& sound(a) ==> sound(b)
    &&& forall|k: Seq<char>| #[trigger]
        a.memo.contains_key(k) ==> b.memo.contains_key(k) && b.memo[k] == a.memo[k]
}

/// A diagnostic that a failed compilation of `g` may carry.
pub open spec fn blames(g: Graph, d: DiagnosticView) -> bool {
    d.severity == Severity::Error && (d.material == g.material || d.material == "<registry>"@)
}

proof fn naming_survives(a: Seq<Seq<char>>, b: Seq<Seq<char>>, i: nat)
    requires
        a.is_prefix_of(b),
        names_texture(a, i),
    ensures
        names_texture(b, i),
{
    let k = choose|k: int|
        0 <= k < a.len() && occurs(#[trigger] a[k], "materialx_texture_"@ + decimal(i));
    assert(b[k] == a[k]);
}

/// More lowering after more lowering is more lowering.
pub proof fn follows_through(a: Work, b: Work, c: Work)
    requires
        follows(a, b),
        follows(b, c),
    ensures
        follows(a, c),
{
    assert forall|i: nat| a.textures.len() <= i < c.textures.len() implies #[trigger] names_texture(
        c.lines,
        i,
    ) by {
        if i < b.textures.len() {
            naming_survives(b.lines, c.lines, i);
        }
    }
    assert forall|k: Seq<char>| #[trigger] a.memo.contains_key(k) implies c.memo.contains_key(k)
        && c.memo[k] == a.memo[k] by {
        assert(b.memo.contains_key(k));
    }
}

proof fn less_is_transitive(a: Seq<char>, b: Seq<char>, c: Seq<char>)
    requires
        text_less(a, b),
        text_less(b, c),
    ensures
        text_less(a, c),
    decreases a.len(),
{
    if a.len() > 0 && b.len() > 0 && c.len() > 0 && a[0] == b[0] && b[0] == c[0] {
        less_is_transitive(a.skip(1), b.skip(1), c.skip(1));
    }
}

/// The character order is total: of two different texts one comes first.
pub proof fn less_is_total(a: Seq<char>, b: Seq<char>)
    ensures
        a == b || text_less(a, b) || text_less(b, a),
    decreases a.len(),
{
    if a.len() > 0 && b.len() > 0 {
        if a[0] == b[0] {
            less_is_total(a.skip(1), b.skip(1));
            if a.skip(1) == b.skip(1) {
                assert(a =~= seq![a[0]] + a.skip(1));
                assert(b =~= seq![b[0]] + b.skip(1));
            }
        }
    } else if a.len() == 0 && b.len() == 0 {
        assert(a =~= b);
    }
}

proof fn import_less_is_transitive(
    a: (Seq<char>, Seq<char>),
    b: (Seq<char>, Seq<char>),
    c: (Seq<char>, Seq<char>),
)
    requires
        import_less(a, b),
        import_less(b, c),
    ensures
        import_less(a, c),
{
    if text_less(a.0, b.0) && text_less(b.0, c.0) {
        less_is_transitive(a.0, b.0, c.0);
    } else if a.0 == b.0 && b.0 == c.0 && text_less(a.1, b.1) && text_less(b.1, c.1) {
        less_is_transitive(a.1, b.1, c.1);
    }
}

proof fn module_insertion(list: Seq<Seq<char>>, item: Seq<char>)
    requires
        modules_ascend(list),
    ensures
        modules_ascend(with_module(list, item)),
        forall|m: Seq<char>| #[trigger]
            with_module(list, item).contains(m) <==> (m == item || list.contains(m)),
    decreases list.len(),
{
    let out = with_module(list, item);
    if list.len() == 0 {
        assert(out[0] == item);
    } else if list.last() == item {
        assert(list[list.len() - 1] == item);
    } else if text_less(list.last(), item) {
        assert forall|i: int, j: int| 0 <= i < j < out.len() implies text_less(
            #[trigger] out[i],
            #[trigger] out[j],
        ) by {
            if j == list.len() && i < list.len() - 1 {
                less_is_transitive(list[i], list.last(), item);
            }
        }
        assert(out[list.len() as int] == item);
        assert forall|m: Seq<char>| #[trigger] out.contains(m) <==> (m == item || list.contains(m)) by {
            if list.contains(m) {
                let k = choose|k: int| 0 <= k < list.len() && list[k] == m;
                assert(out[k] == m);
            }
        }
    } else {
        let front = list.drop_last();
        module_insertion(front, item);
        let inner = with_module(front, item);
        less_is_total(list.last(), item);
        assert forall|i: int, j: int| 0 <= i < j < out.len() implies text_less(
            #[trigger] out[i],
            #[trigger] out[j],
        ) by {
            if j == inner.len() {
                assert(inner.contains(inner[i]));
                if inner[i] != item {
                    let k = choose|k: int| 0 <= k < front.len() && front[k] == inner[i];
                    assert(list[k] == inner[i]);
                }
            }
        }
        assert forall|m: Seq<char>| #[trigger] out.contains(m) <==> (m == item || list.contains(m)) by {
            assert(out[inner.len() as int] == list.last());
            if inner.contains(m) {
                let k = choose|k: int| 0 <= k < inner.len() && inner[k] == m;
                assert(out[k] == m);
                if front.contains(m) {
                    let q = choose|q: int| 0 <= q < front.len() && front[q] == m;
                    assert(list[q] == m);
                }
            }
            if list.contains(m) && m != list.last() {
                let q = choose|q: int| 0 <= q < list.len() && list[q] == m;
                assert(front[q] == m);
                assert(inner.contains(m));
            }
        }
    }
}

proof fn import_insertion(list: Seq<(Seq<char>, Seq<char>)>, item: (Seq<char>, Seq<char>))
    requires
        imports_ascend(list),
    ensures
        imports_ascend(with_import(list, item)),
        forall|m: (Seq<char>, Seq<char>)| #[trigger]
            with_import(list, item).contains(m) <==> (m == item || list.contains(m)),
    decreases list.len(),
{
    let out = with_import(list, item);
    if list.len() == 0 {
        assert(out[0] == item);
    } else if list.last() == item {
        assert(list[list.len() - 1] == item);
    } else if import_less(list.last(), item) {
        assert forall|i: int, j: int| 0 <= i < j < out.len() implies import_less(
            #[trigger] out[i],
            #[trigger] out[j],
        ) by {
            if j == list.len() && i < list.len() - 1 {
                import_less_is_transitive(list[i], list.last(), item);
            }
        }
        assert(out[list.len() as int] == item);
        assert forall|m: (Seq<char>, Seq<char>)| #[trigger]
            out.contains(m) <==> (m == item || list.contains(m)) by {
            if list.contains(m) {
                let k = choose|k: int| 0 <= k < list.len() && list[k] == m;
                assert(out[k] == m);
            }
        }
    } else {
        let front = list.drop_last();
        import_insertion(front, item);
        let inner = with_import(front, item);
        less_is_total(list.last().0, item.0);
        less_is_total(list.last().1, item.1);
        assert forall|i: int, j: int| 0 <= i < j < out.len() implies import_less(
            #[trigger] out[i],
            #[trigger] out[j],
        ) by {
            if j == inner.len() {
                assert(inner.contains(inner[i]));
                if inner[i] != item {
                    let k = choose|k: int| 0 <= k < front.len() && front[k] == inner[i];
                    assert(list[k] == inner[i]);
                }
            }
        }
        assert forall|m: (Seq<char>, Seq<char>)| #[trigger]
            out.contains(m) <==> (m == item || list.contains(m)) by {
            assert(out[inner.len() as int] == list.last());
            if inner.contains(m) {
                let k = choose|k: int| 0 <= k < inner.len() && inner[k] == m;
                assert(out[k] == m);
                if front.contains(m) {
                    let q = choose|q: int| 0 <= q < front.len() && front[q] == m;
                    assert(list[q] == m);
                }
            }
            if list.contains(m) && m != list.last() {
                let q = choose|q: int| 0 <= q < list.len() && list[q] == m;
                assert(front[q] == m);
                assert(inner.contains(m));
            }
        }
    }
}

proof fn call_follows(w: Work, module: Seq<char>, symbol: Seq<char>, arguments: Seq<char>)
    ensures
        follows(w, with_call(w, module, symbol, arguments)),
{
    let b = with_call(w, module, symbol, arguments);
    if sound(w) {
        module_insertion(w.modules, module);
        import_insertion(w.imports, (module, symbol));
        let n = w.lines.len();
        let head = "    let "@ + variable_name(n) + " = "@;
        assert(b.lines[n as int] =~= head + (symbol + "("@ + arguments + ");"@));
        assert(head =~= b.lines[n as int].subrange(0, head.len() as int));
        assert(defines_variable(b.lines[n as int], n));
        assert forall|p: (Seq<char>, Seq<char>)| #[trigger] b.imports.contains(p) implies
            b.modules.contains(p.0) by {
            if p != (module, symbol) {
                assert(w.imports.contains(p));
            }
        }
    }
}

/// A call imports its function and requires its module, and drops none that
/// were there.
pub proof fn calls_are_imported(
    w: Work,
    module: Seq<char>,
    symbol: Seq<char>,
    arguments: Seq<char>,
)
    requires
        sound(w),
    ensures
        with_call(w, module, symbol, arguments).imports.contains((module, symbol)),
        with_call(w, module, symbol, arguments).modules.contains(module),
        forall|p: (Seq<char>, Seq<char>)| #[trigger]
            w.imports.contains(p) ==> with_call(w, module, symbol, arguments).imports.contains(p),
        forall|m: Seq<char>| #[trigger]
            w.modules.contains(m) ==> with_call(w, module, symbol, arguments).modules.contains(m),
        with_call(w, module, symbol, arguments).uniforms == w.uniforms,
        with_call(w, module, symbol, arguments).textures == w.textures,
        with_call(w, module, symbol, arguments).memo == w.memo,
        with_call(w, module, symbol, arguments).lines.len() == w.lines.len() + 1,
{
    module_insertion(w.modules, module);
    import_insertion(w.imports, (module, symbol));
}

proof fn call_keeps(
    a: Work,
    b: Work,
    module: Seq<char>,
    symbol: Seq<char>,
    arguments: Seq<char>,
)
    requires
        follows(a, b),
    ensures
        follows(a, with_call(b, module, symbol, arguments)),
{
    call_follows(b, module, symbol, arguments);
    follows_through(a, b, with_call(b, module, symbol, arguments));
}

proof fn constant_keeps(g: Graph, w: Work, prim: Seq<char>, port: PortView, attribute: Seq<char>)
    ensures
        match lower_constant(g, w, prim, port, attribute) {
            Ok((b, _, _)) => follows(w, b),
            Err(d) => blames(g, d),
        },
{
}

/// Lowering an input takes nothing back.
pub proof fn input_keeps(
    g: Graph,
    visiting: Set<Seq<char>>,
    w: Work,
    prim: Seq<char>,
    port: PortView,
)
    ensures
        match lower_input(g, visiting, w, prim, port) {
            Ok((b, _, _)) => follows(w, b),
            Err(d) => blames(g, d),
        },
    decreases room(g, visiting), 1int, 0int,
{
    if let Ok(attribute) = appended(prim, "inputs:"@ + port.name) {
        constant_keeps(g, w, prim, port, attribute);
        if let Ok(sources) = sources_of(g, attribute) {
            if sources.len() == 1 {
                sources_are_connected(g, attribute, 0);
                source_keeps(g, visiting, w, sources[0]);
            }
        }
    }
}

proof fn source_keeps(g: Graph, visiting: Set<Seq<char>>, w: Work, source: Seq<char>)
    requires
        connected(g.stage).contains(source),
    ensures
        match lower_source(g, visiting, w, source) {
            Ok((b, _)) => follows(w, b),
            Err(d) => blames(g, d),
        },
    decreases room(g, visiting), 0int, 0int,
{
    if !w.memo.contains_key(source) && !visiting.contains(source) {
        room_shrinks(g, visiting, source);
        fresh_keeps(g, visiting.insert(source), w, source);
    }
}

proof fn fresh_keeps(g: Graph, visiting: Set<Seq<char>>, w: Work, source: Seq<char>)
    ensures
        match lower_fresh(g, visiting, w, source) {
            Ok((b, _)) => follows(w, b),
            Err(d) => blames(g, d),
        },
    decreases room(g, visiting), 4int, 0int,
{
    if let Some((prim, property)) = property_split(source) {
        if let Ok(sources) = sources_of(g, source) {
            if sources.len() == 1 {
                sources_are_connected(g, source, 0);
                source_keeps(g, visiting, w, sources[0]);
            }
        }
        node_keeps(g, visiting, w, prim, without_leading(property, "outputs:"@));
    }
}

proof fn follows_itself(w: Work)
    ensures
        follows(w, w),
{
}

proof fn called_node_keeps(
    g: Graph,
    visiting: Set<Seq<char>>,
    w: Work,
    prim: Seq<char>,
    id: Seq<char>,
    node: CoverageView,
)
    ensures
        match lower_arguments(g, visiting, w, prim, id, node.inputs, node.inputs.len()) {
            Ok((b, codes)) => follows(
                w,
                with_call(b, node.module->0, node.symbol->0, join(codes, ", "@)),
            ),
            Err(d) => blames(g, d),
        },
    decreases room(g, visiting), 2int, node.inputs.len() + 1,
{
    arguments_keep(g, visiting, w, prim, id, node.inputs, node.inputs.len());
    if let Ok((b, codes)) = lower_arguments(
        g,
        visiting,
        w,
        prim,
        id,
        node.inputs,
        node.inputs.len(),
    ) {
        call_keeps(w, b, node.module->0, node.symbol->0, join(codes, ", "@));
    }
}

proof fn node_keeps(
    g: Graph,
    visiting: Set<Seq<char>>,
    w: Work,
    prim: Seq<char>,
    output_name: Seq<char>,
)
    ensures
        match lower_node(g, visiting, w, prim, output_name) {
            Ok((b, _)) => follows(w, b),
            Err(d) => blames(g, d),
        },
    decreases room(g, visiting), 3int, 0int,
{
    if let Ok(id) = shader_name(g, prim) {
        if let Ok(node) = descriptor_of(g, prim, id) {
            if let Ok(output) = chosen_output(g, prim, id, node, output_name) {
                if id == "ND_texcoord_vector2"@ {
                    follows_itself(w);
                } else if id == "ND_image_color3"@ {
                    image_keeps(g, visiting, w, prim, node, output);
                } else {
                    called_node_keeps(g, visiting, w, prim, id, node);
                }
            }
        }
    }
}

proof fn arguments_keep(
    g: Graph,
    visiting: Set<Seq<char>>,
    w: Work,
    prim: Seq<char>,
    id: Seq<char>,
    inputs: Seq<PortView>,
    count: nat,
)
    ensures
        match lower_arguments(g, visiting, w, prim, id, inputs, count) {
            Ok((b, codes)) => follows(w, b) && codes.len() == count,
            Err(d) => blames(g, d),
        },
    decreases room(g, visiting), 2int, count,
{
    if count > 0 {
        arguments_keep(g, visiting, w, prim, id, inputs, (count - 1) as nat);
        if let Ok((w1, codes)) = lower_arguments(
            g,
            visiting,
            w,
            prim,
            id,
            inputs,
            (count - 1) as nat,
        ) {
            input_keeps(g, visiting, w1, prim, inputs[count - 1]);
            if let Ok((w2, e, active)) = lower_input(g, visiting, w1, prim, inputs[count - 1]) {
                follows_through(w, w1, w2);
            }
        }
    }
}

proof fn image_keeps(
    g: Graph,
    visiting: Set<Seq<char>>,
    w: Work,
    prim: Seq<char>,
    node: CoverageView,
    output: PortView,
)
    ensures
        match lower_image(g, visiting, w, prim, node, output) {
            Ok((b, _)) => follows(w, b),
            Err(d) => blames(g, d),
        },
    decreases room(g, visiting), 2int, 0int,
{
    if let Ok(texture) = image_texture(g, w, prim, node) {
        let w1 = Work { textures: w.textures.push(texture), ..w };
        if let Ok(default_port) = required_port(node, "default"@) {
            input_keeps(g, visiting, w1, prim, default_port);
            if let Ok((w2, default, a2)) = lower_input(g, visiting, w1, prim, default_port) {
                if let Ok(texcoord_port) = required_port(node, "texcoord"@) {
                    input_keeps(g, visiting, w2, prim, texcoord_port);
                    if let Ok((w3, texcoord, a3)) = lower_input(
                        g,
                        visiting,
                        w2,
                        prim,
                        texcoord_port,
                    ) {
                        let index = w.textures.len();
                        let arguments = image_arguments(index, default.code, texcoord.code);
                        let w4 = with_call(w3, node.module->0, node.symbol->0, arguments);
                        follows_through(w1, w2, w3);
                        call_keeps(w1, w3, node.module->0, node.symbol->0, arguments);
                        call_names_texture(
                            w3,
                            node.module->0,
                            node.symbol->0,
                            index,
                            default.code,
                            texcoord.code,
                        );
                        assert(w.textures.is_prefix_of(w1.textures));
                        assert forall|i: nat|
                            w.textures.len() <= i < w4.textures.len() implies #[trigger] names_texture(
                            w4.lines,
                            i,
                        ) by {}
                        assert(sound(w) ==> sound(w1));
                        assert(follows(w, w4));
                    }
                }
            }
        }
    }
}

proof fn call_names_texture(
    w: Work,
    module: Seq<char>,
    symbol: Seq<char>,
    index: nat,
    default: Seq<char>,
    texcoord: Seq<char>,
)
    ensures
        names_texture(
            with_call(w, module, symbol, image_arguments(index, default, texcoord)).lines,
            index,
        ),
{
    let n = w.lines.len();
    let lines = with_call(w, module, symbol, image_arguments(index, default, texcoord)).lines;
    let head = "    let "@ + variable_name(n) + " = "@ + symbol + "("@;
    let name = "materialx_texture_"@ + decimal(index);
    assert(lines[n as int].subrange(
        head.len() as int,
        (head.len() + name.len()) as int,
    ) =~= name);
    assert(occurs_at(lines[n as int], name, head.len() as int));
    assert(occurs(lines[n as int], name));
}

proof fn ports_keep(
    g: Graph,
    w: Work,
    prim: Seq<char>,
    node: CoverageView,
    names: Seq<Seq<char>>,
    count: nat,
)
    ensures
        match lower_ports(g, w, prim, node, names, count) {
            Ok((b, done)) => follows(w, b) && done.len() == count,
            Err(d) => blames(g, d),
        },
    decreases count,
{
    if count > 0 {
        ports_keep(g, w, prim, node, names, (count - 1) as nat);
        if let Ok((w1, done)) = lower_ports(g, w, prim, node, names, (count - 1) as nat) {
            if let Ok(port) = required_port(node, names[count - 1]) {
                input_keeps(g, Set::empty(), w1, prim, port);
                if let Ok((w2, e, active)) = lower_input(g, Set::empty(), w1, prim, port) {
                    follows_through(w, w1, w2);
                }
            }
        }
    }
}

/// The work that the surface of `g` ends with.
pub open spec fn surface_work(g: Graph) -> Option<Work> {
    match terminal(g) {
        Ok(source) => match surface_output(g, source) {
            Ok(output) => match lower_surface(g, output) {
                Ok((w, _, _)) => Some(w),
                Err(_) => None,
            },
            Err(_) => None,
        },
        Err(_) => None,
    }
}

proof fn surface_keeps(g: Graph)
    ensures
        surface_work(g) matches Some(w) ==> follows(no_work(), w),
        match compiled(g) {
            Ok(_) => surface_work(g) is Some,
            Err(d) => blames(g, d),
        },
{
    if let Ok(source) = terminal(g) {
        if let Ok(output) = surface_output(g, source) {
            let prim = crate::path::owning_prim(output);
            if let Ok(id) = shader_name(g, prim) {
                if let Ok(node) = descriptor_of(g, prim, id) {
                    ports_keep(g, no_work(), prim, node, surface_inputs(), surface_inputs().len());
                }
            }
        }
    }
}

/// A compiled material uses at most 64 uniform values and four textures, its
/// module list and imports are strictly ascending, every imported symbol comes
/// from a required module, generated line `i` defines variable `i`, and every
/// texture is sampled by some line, so that its binding is declared.
pub proof fn compiled_materials_are_sound(g: Graph)
    requires
        compiled(g) is Ok,
    ensures
        sound(surface_work(g)->0),
        compiled(g)->Ok_0.uniforms.len() <= MAX_UNIFORMS,
        compiled(g)->Ok_0.textures.len() <= MAX_TEXTURES,
        compiled(g)->Ok_0.textures.len() <= textures_named(surface_work(g)->0.lines),
        modules_ascend(compiled(g)->Ok_0.required_modules),
{
    surface_keeps(g);
    let w = surface_work(g)->0;
    assert(sound(no_work()));
    if w.textures.len() > 0 {
        let last = (w.textures.len() - 1) as nat;
        assert(names_texture(w.lines, last));
        super::emit::named_textures_are_declared(w.lines, last);
    }
}

/// A failed compilation carries exactly one diagnostic: an error that names
/// the material, or the registry where a descriptor lacks a port. A successful
/// one carries the approximation warning and nothing but warnings.
pub proof fn outcomes_are_diagnosed(g: Graph)
    ensures
        match compile_outcome(g) {
            Ok(c) => 1 <= c.diagnostics.len() <= 2 && forall|i: int|
                0 <= i < c.diagnostics.len() ==> (#[trigger] c.diagnostics[i]).severity
                    == Severity::Warning && c.diagnostics[i].material == g.material,
            Err(list) => list.len() == 1 && blames(g, list[0]),
        },
{
    surface_keeps(g);
}

/// Different generated variables have different names.
pub proof fn variables_are_distinct(a: nat, b: nat)
    requires
        variable_name(a) == variable_name(b),
    ensures
        a == b,
{
    let head = "mx_node_"@;
    assert(variable_name(a).skip(head.len() as int) =~= decimal(a));
    assert(variable_name(b).skip(head.len() as int) =~= decimal(b));
    decimal_is_injective(a, b);
}

/// A source that several inputs share is lowered once: asking for it again
/// gives the same expression and adds nothing.
pub proof fn shared_sources_are_lowered_once(
    g: Graph,
    visiting: Set<Seq<char>>,
    w: Work,
    source: Seq<char>,
    later: Work,
)
    requires
        connected(g.stage).contains(source),
        lower_source(g, visiting, w, source) is Ok,
        follows((lower_source(g, visiting, w, source)->Ok_0).0, later),
    ensures
        lower_source(g, visiting, later, source) == Ok::<(Work, ExpressionView), DiagnosticView>(
            (later, (lower_source(g, visiting, w, source)->Ok_0).1),
        ),
{
    let (w1, e) = lower_source(g, visiting, w, source)->Ok_0;
    assert(w1.memo.contains_key(source));
}

/// Coming back to a source that is still being lowered is a connection cycle.
pub proof fn cycles_are_diagnosed(
    g: Graph,
    visiting: Set<Seq<char>>,
    w: Work,
    source: Seq<char>,
)
    requires
        connected(g.stage).contains(source),
        visiting.contains(source),
        !w.memo.contains_key(source),
    ensures
        lower_source(g, visiting, w, source) matches Err(d) && d.code
            == DiagnosticCode::ConnectionCycle && d.property == Some(source),
{
}

/// A connected MaterialX terminal is taken whatever the universal terminal
/// holds, and always routes the material to the compiler.
pub proof fn materialx_terminal_wins(g: Graph, source: Seq<char>)
    requires
        terminal_in(g, "outputs:mtlx:surface"@) == Ok::<Option<Seq<char>>, DiagnosticView>(
            Some(source),
        ),
    ensures
        terminal(g) == Ok::<Seq<char>, DiagnosticView>(source),
        opts_in(g),
{
}

/// Where the MaterialX terminal is unconnected, the universal one decides.
pub proof fn universal_terminal_is_the_fallback(g: Graph)
    requires
        terminal_in(g, "outputs:mtlx:surface"@) == Ok::<Option<Seq<char>>, DiagnosticView>(None),
        terminal_in(g, "outputs:surface"@) matches Ok(Some(_)),
    ensures
        terminal(g) == Ok::<Seq<char>, DiagnosticView>(
            terminal_in(g, "outputs:surface"@)->Ok_0->0,
        ),
{
}

/// The two graphs differ at most in which values their inputs hold: they have
/// the same material, descriptors, connections, prim types, shader identifiers
/// and implementation sources, and a value is authored in both or in neither.
pub open spec fn same_structure(a: Graph, b: Graph) -> bool {
    &&& a.material == b.material
    &&& a.nodes == b.nodes
    &&& forall|prim: Seq<char>, name: Seq<char>| #[trigger]
        a.stage.targets(prim, name) == b.stage.targets(prim, name)
    &&& forall|prim: Seq<char>| #[trigger] a.stage.type_of(prim) == b.stage.type_of(prim)
    &&& forall|prim: Seq<char>| #[trigger] shader_name(a, prim) == shader_name(b, prim)
    &&& forall|prim: Seq<char>| #[trigger] id_implementation(a, prim) == id_implementation(b, prim)
    &&& forall|prim: Seq<char>, name: Seq<char>|
        (#[trigger] a.stage.timed_value(prim, name) matches Ok(Some(_))) == (b.stage.timed_value(
            prim,
            name,
        ) matches Ok(Some(_)))
}

/// The two works differ at most in the values of their uniforms and in their
/// textures.
pub open spec fn alike(a: Work, b: Work) -> bool {
    &&& a.uniforms.len() == b.uniforms.len()
    &&& a.textures.len() == b.textures.len()
    &&& a.lines == b.lines
    &&& a.modules == b.modules
    &&& a.imports == b.imports
    &&& a.memo == b.memo
}

proof fn sources_agree(a: Graph, b: Graph, attribute: Seq<char>)
    requires
        same_structure(a, b),
    ensures
        sources_of(a, attribute) == sources_of(b, attribute),
{
    if let Some((prim, name)) = property_split(attribute) {
        assert(a.stage.targets(prim, name) == b.stage.targets(prim, name));
    }
}

proof fn inputs_agree(
    a: Graph,
    b: Graph,
    visiting: Set<Seq<char>>,
    v: Work,
    w: Work,
    prim: Seq<char>,
    port: PortView,
)
    requires
        same_structure(a, b),
        alike(v, w),
    ensures
        lower_input(a, visiting, v, prim, port) matches Ok(x) ==> lower_input(
            b,
            visiting,
            w,
            prim,
            port,
        ) matches Ok(y) ==> alike(x.0, y.0) && x.1 == y.1 && x.2 == y.2,
    decreases room(a, visiting), 1int, 0int,
{
    if let Ok(attribute) = appended(prim, "inputs:"@ + port.name) {
        sources_agree(a, b, attribute);
        assert((a.stage.timed_value(prim, "inputs:"@ + port.name) matches Ok(Some(_))) == (
        b.stage.timed_value(prim, "inputs:"@ + port.name) matches Ok(Some(_))));
        if let Ok(sources) = sources_of(a, attribute) {
            if sources.len() == 1 {
                sources_are_connected(a, attribute, 0);
                sources_are_connected(b, attribute, 0);
                lowered_sources_agree(a, b, visiting, v, w, sources[0]);
            }
        }
    }
}

proof fn lowered_sources_agree(
    a: Graph,
    b: Graph,
    visiting: Set<Seq<char>>,
    v: Work,
    w: Work,
    source: Seq<char>,
)
    requires
        same_structure(a, b),
        alike(v, w),
        connected(a.stage).contains(source),
        connected(b.stage).contains(source),
    ensures
        lower_source(a, visiting, v, source) matches Ok(x) ==> lower_source(
            b,
            visiting,
            w,
            source,
        ) matches Ok(y) ==> alike(x.0, y.0) && x.1 == y.1,
    decreases room(a, visiting), 0int, 0int,
{
    if !v.memo.contains_key(source) && !visiting.contains(source) {
        room_shrinks(a, visiting, source);
        fresh_sources_agree(a, b, visiting.insert(source), v, w, source);
    }
}

proof fn fresh_sources_agree(
    a: Graph,
    b: Graph,
    visiting: Set<Seq<char>>,
    v: Work,
    w: Work,
    source: Seq<char>,
)
    requires
        same_structure(a, b),
        alike(v, w),
    ensures
        lower_fresh(a, visiting, v, source) matches Ok(x) ==> lower_fresh(
            b,
            visiting,
            w,
            source,
        ) matches Ok(y) ==> alike(x.0, y.0) && x.1 == y.1,
    decreases room(a, visiting), 4int, 0int,
{
    if let Some((prim, property)) = property_split(source) {
        assert(a.stage.type_of(prim) == b.stage.type_of(prim));
        sources_agree(a, b, source);
        if let Ok(sources) = sources_of(a, source) {
            if sources.len() == 1 {
                sources_are_connected(a, source, 0);
                sources_are_connected(b, source, 0);
                lowered_sources_agree(a, b, visiting, v, w, sources[0]);
            }
        }
        nodes_agree(a, b, visiting, v, w, prim, without_leading(property, "outputs:"@));
    }
}

proof fn nodes_agree(
    a: Graph,
    b: Graph,
    visiting: Set<Seq<char>>,
    v: Work,
    w: Work,
    prim: Seq<char>,
    output_name: Seq<char>,
)
    requires
        same_structure(a, b),
        alike(v, w),
    ensures
        lower_node(a, visiting, v, prim, output_name) matches Ok(x) ==> lower_node(
            b,
            visiting,
            w,
            prim,
            output_name,
        ) matches Ok(y) ==> alike(x.0, y.0) && x.1 == y.1,
    decreases room(a, visiting), 3int, 0int,
{
    assert(shader_name(a, prim) == shader_name(b, prim));
    assert(id_implementation(a, prim) == id_implementation(b, prim));
    if let Ok(id) = shader_name(a, prim) {
        if let Ok(node) = descriptor_of(a, prim, id) {
            if let Ok(output) = chosen_output(a, prim, id, node, output_name) {
                images_agree(a, b, visiting, v, w, prim, node, output);
                arguments_agree(a, b, visiting, v, w, prim, id, node.inputs, node.inputs.len());
            }
        }
    }
}

proof fn arguments_agree(
    a: Graph,
    b: Graph,
    visiting: Set<Seq<char>>,
    v: Work,
    w: Work,
    prim: Seq<char>,
    id: Seq<char>,
    inputs: Seq<PortView>,
    count: nat,
)
    requires
        same_structure(a, b),
        alike(v, w),
    ensures
        lower_arguments(a, visiting, v, prim, id, inputs, count) matches Ok(x) ==> lower_arguments(
            b,
            visiting,
            w,
            prim,
            id,
            inputs,
            count,
        ) matches Ok(y) ==> alike(x.0, y.0) && x.1 == y.1,
    decreases room(a, visiting), 2int, count,
{
    if count > 0 {
        let before = (count - 1) as nat;
        arguments_agree(a, b, visiting, v, w, prim, id, inputs, before);
        if let Ok((v1, codes)) = lower_arguments(a, visiting, v, prim, id, inputs, before) {
            if let Ok((w1, others)) = lower_arguments(b, visiting, w, prim, id, inputs, before) {
                inputs_agree(a, b, visiting, v1, w1, prim, inputs[count - 1]);
            }
        }
    }
}

proof fn images_agree(
    a: Graph,
    b: Graph,
    visiting: Set<Seq<char>>,
    v: Work,
    w: Work,
    prim: Seq<char>,
    node: CoverageView,
    output: PortView,
)
    requires
        same_structure(a, b),
        alike(v, w),
    ensures
        lower_image(a, visiting, v, prim, node, output) matches Ok(x) ==> lower_image(
            b,
            visiting,
            w,
            prim,
            node,
            output,
        ) matches Ok(y) ==> alike(x.0, y.0) && x.1 == y.1,
    decreases room(a, visiting), 2int, 0int,
{
    if let Ok(s) = image_texture(a, v, prim, node) {
        if let Ok(t) = image_texture(b, w, prim, node) {
            let v1 = Work { textures: v.textures.push(s), ..v };
            let w1 = Work { textures: w.textures.push(t), ..w };
            if let Ok(default_port) = required_port(node, "default"@) {
                inputs_agree(a, b, visiting, v1, w1, prim, default_port);
                if let Ok((v2, d2, _)) = lower_input(a, visiting, v1, prim, default_port) {
                    if let Ok((w2, e2, _)) = lower_input(b, visiting, w1, prim, default_port) {
                        if let Ok(texcoord_port) = required_port(node, "texcoord"@) {
                            inputs_agree(a, b, visiting, v2, w2, prim, texcoord_port);
                        }
                    }
                }
            }
        }
    }
}

proof fn ports_agree(
    a: Graph,
    b: Graph,
    prim: Seq<char>,
    node: CoverageView,
    names: Seq<Seq<char>>,
    count: nat,
)
    requires
        same_structure(a, b),
    ensures
        lower_ports(a, no_work(), prim, node, names, count) matches Ok(x) ==> lower_ports(
            b,
            no_work(),
            prim,
            node,
            names,
            count,
        ) matches Ok(y) ==> alike(x.0, y.0) && x.1 == y.1,
    decreases count,
{
    if count > 0 {
        let before = (count - 1) as nat;
        ports_agree(a, b, prim, node, names, before);
        if let Ok((v1, codes)) = lower_ports(a, no_work(), prim, node, names, before) {
            if let Ok((w1, others)) = lower_ports(b, no_work(), prim, node, names, before) {
                if let Ok(port) = required_port(node, names[count - 1]) {
                    inputs_agree(a, b, Set::empty(), v1, w1, prim, port);
                }
            }
        }
    }
}

/// Changing authored values and texture paths, but nothing of the structure,
/// leaves the generated source and the number of textures as they were, and
/// those two are all that the graph key is made of. The blend mode, the
/// required modules, the warnings and the number of uniforms stay too.
pub proof fn source_is_stable_under_value_changes(a: Graph, b: Graph)
    requires
        same_structure(a, b),
        compiled(a) is Ok,
        compiled(b) is Ok,
    ensures
        compiled(a)->Ok_0.wesl == compiled(b)->Ok_0.wesl,
        compiled(a)->Ok_0.textures.len() == compiled(b)->Ok_0.textures.len(),
        compiled(a)->Ok_0.uniforms.len() == compiled(b)->Ok_0.uniforms.len(),
        compiled(a)->Ok_0.alpha_blend == compiled(b)->Ok_0.alpha_blend,
        compiled(a)->Ok_0.required_modules == compiled(b)->Ok_0.required_modules,
        compiled(a)->Ok_0.diagnostics == compiled(b)->Ok_0.diagnostics,
{
    if let Ok(path) = appended(a.material, "outputs:mtlx:surface"@) {
        sources_agree(a, b, path);
    }
    if let Ok(path) = appended(a.material, "outputs:surface"@) {
        sources_agree(a, b, path);
    }
    assert(terminal(a) == terminal(b));
    let source = terminal(a)->Ok_0;
    let (prim, property) = property_split(source)->0;
    assert(shader_name(a, prim) == shader_name(b, prim));
    if let Ok(input) = appended(prim, "inputs:surfaceshader"@) {
        sources_agree(a, b, input);
    }
    assert(surface_output(a, source) == surface_output(b, source));
    let output = surface_output(a, source)->Ok_0;
    let surface = crate::path::owning_prim(output);
    assert(shader_name(a, surface) == shader_name(b, surface));
    assert(id_implementation(a, surface) == id_implementation(b, surface));
    let id = shader_name(a, surface)->Ok_0;
    let node = descriptor_of(a, surface, id)->Ok_0;
    ports_agree(a, b, surface, node, surface_inputs(), surface_inputs().len());
}

/// Graphs with the same generated source and the same number of textures have
/// keys that are hashes of the same: each key is one that the other could have.
pub proof fn keys_follow_the_source(a: CompiledMaterialX, b: CompiledMaterialX)
    requires
        keyed_by_source(a),
        keyed_by_source(b),
        a.wesl@ == b.wesl@,
        a.textures@.len() == b.textures@.len(),
    ensures
        hashes_to(a.wesl@, seq![a.textures@.len() as i128], b.graph_key),
        hashes_to(b.wesl@, seq![b.textures@.len() as i128], a.graph_key),
{
}

} // verus!
