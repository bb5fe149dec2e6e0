//! What the generated module holds: every import, declaration and line of the
//! lowering, and the surface's expressions in the order of the parameters.

use super::emit::{
    binding_text, bindings_text, import_text, lines_text, names_texture, return_text, root_text,
    textures_named, SurfaceView, BLEND_FLAG, FRAGMENT_HEAD, FRAGMENT_TAIL, GRAPH_HEAD, NORMAL_LINE,
    PBR_IMPORTS, UNIFORM_BLOCK,
};
use crate::text::{decimal, join, occurs, occurs_at};
use vstd::prelude::*;

verus! {

/// The text holds the piece.
#[verifier::opaque]
pub open spec fn holds(text: Seq<char>, piece: Seq<char>) -> bool {
    occurs(text, piece)
}

proof fn stands_between(all: Seq<char>, before: Seq<char>, text: Seq<char>, after: Seq<char>)
    requires
        all == before + text + after,
    ensures
        holds(all, text),
{
    reveal(holds);
    assert(all.subrange(before.len() as int, (before.len() + text.len()) as int) =~= text);
    assert(occurs_at(all, text, before.len() as int));
}

proof fn stands_in_front(all: Seq<char>, front: Seq<char>, after: Seq<char>, piece: Seq<char>)
    requires
        all == front + after,
        holds(front, piece),
    ensures
        holds(all, piece),
{
    reveal(holds);
    let at = choose|at: int| occurs_at(front, piece, at);
    assert(all.subrange(at, at + piece.len()) =~= front.subrange(at, at + piece.len()));
    assert(occurs_at(all, piece, at));
}

proof fn grouped(a: Seq<char>, b: Seq<char>, c: Seq<char>)
    ensures
        (a + b) + c == a + (b + c),
{
    assert((a + b) + c =~= a + (b + c));
}

/// Joining puts the separator between neighbours and nowhere else.
pub proof fn joined_parts_are_separated(parts: Seq<Seq<char>>, last: Seq<char>, sep: Seq<char>)
    ensures
        join(Seq::empty(), sep).len() == 0,
        join(seq![last], sep) == last,
        parts.len() > 0 ==> join(parts.push(last), sep) == join(parts, sep) + sep + last,
{
    assert(parts.push(last).drop_last() =~= parts);
}

/// Every import has its line.
pub proof fn every_import_is_written(imports: Seq<(Seq<char>, Seq<char>)>, count: nat, k: int)
    requires
        0 <= k < count <= imports.len(),
    ensures
        holds(
            import_text(imports, count),
            "import materialx::"@ + imports[k].0 + "::"@ + imports[k].1 + ";\n"@,
        ),
    decreases count,
{
    let last = (count - 1) as nat;
    let rest = import_text(imports, last);
    let own = "import materialx::"@ + imports[last as int].0 + "::"@ + imports[last as int].1
        + ";\n"@;
    let all = import_text(imports, count);
    let head = "import materialx::"@;
    grouped(rest, head, imports[last as int].0);
    grouped(rest, head + imports[last as int].0, "::"@);
    grouped(rest, head + imports[last as int].0 + "::"@, imports[last as int].1);
    grouped(rest, head + imports[last as int].0 + "::"@ + imports[last as int].1, ";\n"@);
    assert(all == rest + own);
    if k < last {
        every_import_is_written(imports, last, k);
        stands_in_front(
            all,
            rest,
            own,
            "import materialx::"@ + imports[k].0 + "::"@ + imports[k].1 + ";\n"@,
        );
    } else {
        assert(own + Seq::<char>::empty() =~= own);
        grouped(rest, own, Seq::empty());
        stands_between(all, rest, own, Seq::empty());
    }
}

/// Every generated line is written, on a line of its own.
pub proof fn every_line_is_written(lines: Seq<Seq<char>>, count: nat, k: int)
    requires
        0 <= k < count <= lines.len(),
    ensures
        holds(lines_text(lines, count), lines[k] + "\n"@),
    decreases count,
{
    let last = (count - 1) as nat;
    let rest = lines_text(lines, last);
    let own = lines[last as int] + "\n"@;
    let all = lines_text(lines, count);
    grouped(rest, lines[last as int], "\n"@);
    assert(all == rest + own);
    if k < last {
        every_line_is_written(lines, last, k);
        stands_in_front(all, rest, own, lines[k] + "\n"@);
    } else {
        assert(own + Seq::<char>::empty() =~= own);
        grouped(rest, own, Seq::empty());
        stands_between(all, rest, own, Seq::empty());
    }
}

/// Texture `k` is declared at binding `1 + 2k` and its sampler at the binding
/// after it, so no two share one and none takes the binding of the uniforms.
pub proof fn every_texture_is_declared(count: nat, k: nat)
    requires
        k < count,
    ensures
        holds(bindings_text(count), texture_line(k)),
        holds(bindings_text(count), sampler_line(k)),
    decreases count,
{
    let texture = texture_line(k);
    let sampler = sampler_line(k);
    let last = (count - 1) as nat;
    let rest = bindings_text(last);
    let own = binding_text(last);
    let all = bindings_text(count);
    if k < last {
        every_texture_is_declared(last, k);
        stands_in_front(all, rest, own, texture);
        stands_in_front(all, rest, own, sampler);
    } else {
        let group = "@group(constants::MATERIAL_BIND_GROUP) "@;
        bindings_are_two_lines(k);
        grouped(rest, group + texture + group, sampler);
        grouped(rest, group + texture, group);
        grouped(rest, group, texture);
        assert(all == rest + (group + texture + group + sampler));
        let back = group + sampler;
        grouped(rest + group + texture, group, sampler);
        assert(all == (rest + group) + texture + back);
        stands_between(all, rest + group, texture, back);
        let front = rest + group + texture + group;
        assert(all == front + sampler);
        assert(sampler + Seq::<char>::empty() =~= sampler);
        grouped(front, sampler, Seq::empty());
        stands_between(all, front, sampler, Seq::empty());
    }
}

/// The declaration of texture `k`, after its group.
pub open spec fn texture_line(k: nat) -> Seq<char> {
    "@binding("@ + decimal(1 + 2 * k) + ") var materialx_texture_"@ + decimal(k)
        + ": texture_2d<f32>;\n"@
}

/// The declaration of the sampler of texture `k`, after its group.
pub open spec fn sampler_line(k: nat) -> Seq<char> {
    "@binding("@ + decimal(2 + 2 * k) + ") var materialx_sampler_"@ + decimal(k) + ": sampler;\n"@
}

/// The declarations of a texture are those of the image and of its sampler,
/// both in the group of the material.
pub proof fn bindings_are_two_lines(k: nat)
    ensures
        binding_text(k) == "@group(constants::MATERIAL_BIND_GROUP) "@ + texture_line(k)
            + "@group(constants::MATERIAL_BIND_GROUP) "@ + sampler_line(k),
{
    reveal_strlit("@group(constants::MATERIAL_BIND_GROUP) ");
    reveal_strlit("@binding(");
    reveal_strlit("@group(constants::MATERIAL_BIND_GROUP) @binding(");
    let group = "@group(constants::MATERIAL_BIND_GROUP) "@;
    assert(group + "@binding("@ =~= "@group(constants::MATERIAL_BIND_GROUP) @binding("@);
    assert(1 + k * 2 == 1 + 2 * k && 2 + k * 2 == 2 + 2 * k);
    let a = decimal(1 + 2 * k) + ") var materialx_texture_"@ + decimal(k)
        + ": texture_2d<f32>;\n"@;
    let b = decimal(2 + 2 * k) + ") var materialx_sampler_"@ + decimal(k) + ": sampler;\n"@;
    assert(texture_line(k) =~= "@binding("@ + a);
    assert(sampler_line(k) =~= "@binding("@ + b);
    let both = group + "@binding("@;
    assert(binding_text(k) =~= both + a + both + b);
    grouped(group, "@binding("@, a);
    grouped(both + a, both, b);
    grouped(group, "@binding("@, b);
    assert(both + b == group + sampler_line(k));
    assert(both + a == group + texture_line(k));
    grouped(group + texture_line(k), group, sampler_line(k));
}

/// The graph function returns the surface's expressions in the order of the
/// parameters: base colour, metalness, roughness, emission, opacity and normal,
/// with a zero vector for a normal that is not set.
pub proof fn parameters_are_returned_in_order(surface: SurfaceView)
    ensures
        ({
            let normal = match surface.normal {
                Some(code) => code,
                None => "vec3f(0.0)"@,
            };
            let between = ",\n        "@;
            return_text(surface) == "    return MaterialXPbrParams(\n        "@ + (
            surface.base_color + between + surface.metalness + between + surface.roughness + between
                + surface.emission + between + surface.opacity + between + normal)
                + ",\n    );\n}\n\n"@
        }),
{
    let normal = match surface.normal {
        Some(code) => code,
        None => "vec3f(0.0)"@,
    };
    let between = ",\n        "@;
    assert(return_text(surface) =~= "    return MaterialXPbrParams(\n        "@ + (
    surface.base_color + between + surface.metalness + between + surface.roughness + between
        + surface.emission + between + surface.opacity + between + normal) + ",\n    );\n}\n\n"@);
}

/// The module holds the uniform block, every import, line and declaration and
/// the returned parameters.
pub proof fn modules_hold_their_parts(
    imports: Seq<(Seq<char>, Seq<char>)>,
    lines: Seq<Seq<char>>,
    surface: SurfaceView,
)
    ensures
        holds(root_text(imports, lines, surface), import_text(imports, imports.len())),
        holds(root_text(imports, lines, surface), UNIFORM_BLOCK@),
        holds(root_text(imports, lines, surface), bindings_text(textures_named(lines))),
        holds(root_text(imports, lines, surface), lines_text(lines, lines.len())),
        holds(root_text(imports, lines, surface), return_text(surface)),
        holds(root_text(imports, lines, surface), FRAGMENT_HEAD@),
        surface.alpha_blend ==> holds(root_text(imports, lines, surface), BLEND_FLAG@),
        surface.normal is Some ==> holds(root_text(imports, lines, surface), NORMAL_LINE@),
{
    let all = root_text(imports, lines, surface);
    let a = import_text(imports, imports.len());
    let b = bindings_text(textures_named(lines));
    let c = lines_text(lines, lines.len());
    let d = return_text(surface);
    let blend = if surface.alpha_blend {
        BLEND_FLAG@
    } else {
        Seq::empty()
    };
    let normal = if surface.normal is Some {
        NORMAL_LINE@
    } else {
        Seq::empty()
    };
    let h8 = PBR_IMPORTS@ + a + UNIFORM_BLOCK@ + b + GRAPH_HEAD@ + c + d + FRAGMENT_HEAD@;
    let h9 = h8 + blend;
    stands_between(all, h9, normal, FRAGMENT_TAIL@);
    stands_last(h9, h8, blend);
    stands_last(h8, PBR_IMPORTS@ + a + UNIFORM_BLOCK@ + b + GRAPH_HEAD@ + c + d, FRAGMENT_HEAD@);
    let h7 = PBR_IMPORTS@ + a + UNIFORM_BLOCK@ + b + GRAPH_HEAD@ + c + d;
    let h6 = PBR_IMPORTS@ + a + UNIFORM_BLOCK@ + b + GRAPH_HEAD@ + c;
    let h4 = PBR_IMPORTS@ + a + UNIFORM_BLOCK@ + b;
    let h3 = PBR_IMPORTS@ + a + UNIFORM_BLOCK@;
    let h2 = PBR_IMPORTS@ + a;
    stands_last(h7, h6, d);
    stands_last(h6, h4 + GRAPH_HEAD@, c);
    stands_last(h4, h3, b);
    stands_last(h3, h2, UNIFORM_BLOCK@);
    stands_last(h2, PBR_IMPORTS@, a);
    stands_in_front(h3, h2, UNIFORM_BLOCK@, a);
    lift4(h4, h3, b, a, UNIFORM_BLOCK@, a, a);
    lift4(h4 + GRAPH_HEAD@, h4, GRAPH_HEAD@, a, UNIFORM_BLOCK@, b, a);
    lift4(h6, h4 + GRAPH_HEAD@, c, a, UNIFORM_BLOCK@, b, a);
    lift4(h7, h6, d, a, UNIFORM_BLOCK@, b, c);
    lift4(h8, h7, FRAGMENT_HEAD@, a, UNIFORM_BLOCK@, b, c);
    stands_in_front(h8, h7, FRAGMENT_HEAD@, d);
    lift4(h9, h8, blend, a, UNIFORM_BLOCK@, b, c);
    lift4(h9, h8, blend, d, FRAGMENT_HEAD@, d, d);
    lift4(h9 + normal, h9, normal, a, UNIFORM_BLOCK@, b, c);
    lift4(h9 + normal, h9, normal, d, FRAGMENT_HEAD@, blend, d);
    lift4(all, h9 + normal, FRAGMENT_TAIL@, a, UNIFORM_BLOCK@, b, c);
    lift4(all, h9 + normal, FRAGMENT_TAIL@, d, FRAGMENT_HEAD@, blend, d);
}

proof fn stands_last(all: Seq<char>, front: Seq<char>, text: Seq<char>)
    requires
        all == front + text,
    ensures
        holds(all, text),
{
    assert(all =~= front + text + Seq::<char>::empty());
    stands_between(all, front, text, Seq::empty());
}

proof fn lift4(
    all: Seq<char>,
    front: Seq<char>,
    after: Seq<char>,
    a: Seq<char>,
    b: Seq<char>,
    c: Seq<char>,
    d: Seq<char>,
)
    requires
        all == front + after,
        holds(front, a),
        holds(front, b),
        holds(front, c),
        holds(front, d),
    ensures
        holds(all, a),
        holds(all, b),
        holds(all, c),
        holds(all, d),
{
    stands_in_front(all, front, after, a);
    stands_in_front(all, front, after, b);
    stands_in_front(all, front, after, c);
    stands_in_front(all, front, after, d);
}

/// The blend flag and the normal are assigned only where the surface asks for
/// them: a module without them is shorter by just these lines.
pub proof fn optional_lines_are_only_written_on_demand(
    imports: Seq<(Seq<char>, Seq<char>)>,
    lines: Seq<Seq<char>>,
    surface: SurfaceView,
)
    ensures
        root_text(imports, lines, (SurfaceView { alpha_blend: true, ..surface })).len()
            == root_text(imports, lines, (SurfaceView { alpha_blend: false, ..surface })).len()
            + BLEND_FLAG@.len(),
        surface.normal matches Some(code) ==> code == "vec3f(0.0)"@ ==> root_text(
            imports,
            lines,
            surface,
        ).len() == root_text(imports, lines, (SurfaceView { normal: None, ..surface })).len()
            + NORMAL_LINE@.len(),
{
}

/// The parameter struct declares the fields in the order in which they are
/// returned.
pub proof fn parameters_are_declared_in_order()
    ensures
        holds(GRAPH_HEAD@, "base_color: vec3f,\n    metalness: f32,\n    roughness: f32,\n    emission: vec3f,\n    opacity: f32,\n    normal: vec3f,\n"@),
{
    reveal(holds);
    let all = GRAPH_HEAD@;
    reveal_strlit("\nstruct MaterialXPbrParams {\n    base_color: vec3f,\n    metalness: f32,\n    roughness: f32,\n    emission: vec3f,\n    opacity: f32,\n    normal: vec3f,\n}\n\nfn materialx_graph(uv: vec2f) -> MaterialXPbrParams {\n");
    reveal_strlit("base_color: vec3f,\n    metalness: f32,\n    roughness: f32,\n    emission: vec3f,\n    opacity: f32,\n    normal: vec3f,\n");
    assert(all.subrange(33, 150) =~= "base_color: vec3f,\n    metalness: f32,\n    roughness: f32,\n    emission: vec3f,\n    opacity: f32,\n    normal: vec3f,\n"@);
    assert(occurs_at(all, "base_color: vec3f,\n    metalness: f32,\n    roughness: f32,\n    emission: vec3f,\n    opacity: f32,\n    normal: vec3f,\n"@, 33));
}

/// The entry point hands each parameter to the renderer's input that it is
/// meant for.
pub proof fn the_entry_point_takes_every_parameter()
    ensures
        holds(FRAGMENT_HEAD@, "base_color = vec4f(mx.base_color, mx.opacity);"@),
        holds(FRAGMENT_HEAD@, "metallic = clamp(mx.metalness, 0.0, 1.0);"@),
        holds(FRAGMENT_HEAD@, "perceptual_roughness = clamp(mx.roughness, 0.0, 1.0);"@),
        holds(FRAGMENT_HEAD@, "emissive = vec4f(mx.emission, 1.0);"@),
{
    reveal(holds);
    let all = FRAGMENT_HEAD@;
    reveal_strlit("@fragment\nfn fragment(in: VertexOutput, @builtin(front_facing) is_front: bool) -> FragmentOutput {\n    var materialx_uv = vec2f(0.0);\n@if(VERTEX_UVS_A)\n    materialx_uv = in.uv;\n    let mx = materialx_graph(materialx_uv);\n    var pbr_input = pbr_input_from_vertex_output(in, is_front, false);\n    pbr_input.material.base_color = vec4f(mx.base_color, mx.opacity);\n    pbr_input.material.metallic = clamp(mx.metalness, 0.0, 1.0);\n    pbr_input.material.perceptual_roughness = clamp(mx.roughness, 0.0, 1.0);\n    pbr_input.material.emissive = vec4f(mx.emission, 1.0);\n");
    reveal_strlit("base_color = vec4f(mx.base_color, mx.opacity);");
    assert(all.subrange(316, 362) =~= "base_color = vec4f(mx.base_color, mx.opacity);"@);
    assert(occurs_at(all, "base_color = vec4f(mx.base_color, mx.opacity);"@, 316));
    reveal_strlit("metallic = clamp(mx.metalness, 0.0, 1.0);");
    assert(all.subrange(386, 427) =~= "metallic = clamp(mx.metalness, 0.0, 1.0);"@);
    assert(occurs_at(all, "metallic = clamp(mx.metalness, 0.0, 1.0);"@, 386));
    reveal_strlit("perceptual_roughness = clamp(mx.roughness, 0.0, 1.0);");
    assert(all.subrange(451, 504) =~= "perceptual_roughness = clamp(mx.roughness, 0.0, 1.0);"@);
    assert(occurs_at(all, "perceptual_roughness = clamp(mx.roughness, 0.0, 1.0);"@, 451));
    reveal_strlit("emissive = vec4f(mx.emission, 1.0);");
    assert(all.subrange(528, 563) =~= "emissive = vec4f(mx.emission, 1.0);"@);
    assert(occurs_at(all, "emissive = vec4f(mx.emission, 1.0);"@, 528));
}

/// How many textures are declared: one more than the highest that a line
/// names.
pub proof fn declared_textures_reach_the_highest_named(lines: Seq<Seq<char>>)
    ensures
        textures_named(lines) <= 4,
        textures_named(lines) > 0 ==> names_texture(lines, (textures_named(lines) - 1) as nat),
        forall|i: nat| textures_named(lines) <= i < 4 ==> !#[trigger] names_texture(lines, i),
{
}

/// The uniform block is the first binding of the material and has the 64 slots
/// that a material may use.
pub proof fn the_uniforms_have_64_slots_at_the_first_binding()
    ensures
        holds(UNIFORM_BLOCK@, "values: array<vec4f, 64>"@),
        holds(UNIFORM_BLOCK@, "@binding(0)\nvar<uniform> materialx: MaterialXUniforms;"@),
{
    reveal(holds);
    reveal_strlit("\nstruct MaterialXUniforms {\n    values: array<vec4f, 64>,\n}\n@group(constants::MATERIAL_BIND_GROUP) @binding(0)\nvar<uniform> materialx: MaterialXUniforms;\n");
    reveal_strlit("values: array<vec4f, 64>");
    assert(UNIFORM_BLOCK@.subrange(32, 56) =~= "values: array<vec4f, 64>"@);
    assert(occurs_at(UNIFORM_BLOCK@, "values: array<vec4f, 64>"@, 32));
    reveal_strlit("@binding(0)\nvar<uniform> materialx: MaterialXUniforms;");
    assert(UNIFORM_BLOCK@.subrange(99, 153) =~= "@binding(0)\nvar<uniform> materialx: MaterialXUniforms;"@);
    assert(occurs_at(UNIFORM_BLOCK@, "@binding(0)\nvar<uniform> materialx: MaterialXUniforms;"@, 99));
}

/// The blend line sets the blend flag, the normal line the compiled normal, and
/// the entry point lights the surface and returns it.
pub proof fn optional_assignments_do_what_they_say()
    ensures
        holds(BLEND_FLAG@, "pbr_input.material.flags | STANDARD_MATERIAL_FLAGS_ALPHA_MODE_BLEND;"@),
        holds(NORMAL_LINE@, "pbr_input.N = normalize(mx.normal);"@),
        holds(FRAGMENT_TAIL@, "out.color = apply_pbr_lighting(pbr_input);"@),
        holds(FRAGMENT_TAIL@, "return out;"@),
{
    reveal(holds);
    reveal_strlit("    pbr_input.material.flags = pbr_input.material.flags | STANDARD_MATERIAL_FLAGS_ALPHA_MODE_BLEND;\n");
    reveal_strlit("pbr_input.material.flags | STANDARD_MATERIAL_FLAGS_ALPHA_MODE_BLEND;");
    assert(BLEND_FLAG@.subrange(31, 99) =~= "pbr_input.material.flags | STANDARD_MATERIAL_FLAGS_ALPHA_MODE_BLEND;"@);
    assert(occurs_at(BLEND_FLAG@, "pbr_input.material.flags | STANDARD_MATERIAL_FLAGS_ALPHA_MODE_BLEND;"@, 31));
    reveal_strlit("    pbr_input.N = normalize(mx.normal);\n");
    reveal_strlit("pbr_input.N = normalize(mx.normal);");
    assert(NORMAL_LINE@.subrange(4, 39) =~= "pbr_input.N = normalize(mx.normal);"@);
    assert(occurs_at(NORMAL_LINE@, "pbr_input.N = normalize(mx.normal);"@, 4));
    reveal_strlit("    var out: FragmentOutput;\n    out.color = apply_pbr_lighting(pbr_input);\n    out.color = main_pass_post_lighting_processing(pbr_input, out.color);\n    return out;\n}\n");
    reveal_strlit("out.color = apply_pbr_lighting(pbr_input);");
    assert(FRAGMENT_TAIL@.subrange(33, 75) =~= "out.color = apply_pbr_lighting(pbr_input);"@);
    assert(occurs_at(FRAGMENT_TAIL@, "out.color = apply_pbr_lighting(pbr_input);"@, 33));
    reveal_strlit("return out;");
    assert(FRAGMENT_TAIL@.subrange(154, 165) =~= "return out;"@);
    assert(occurs_at(FRAGMENT_TAIL@, "return out;"@, 154));
}

/// Lines and imports are written in order: one more comes after all before it.
pub proof fn lines_and_imports_come_in_order(
    lines: Seq<Seq<char>>,
    line: Seq<char>,
    imports: Seq<(Seq<char>, Seq<char>)>,
    import: (Seq<char>, Seq<char>),
)
    ensures
        lines_text(lines.push(line), lines.len() + 1) == lines_text(lines, lines.len()) + line
            + "\n"@,
        import_text(imports.push(import), imports.len() + 1) == import_text(
            imports,
            imports.len(),
        ) + "import materialx::"@ + import.0 + "::"@ + import.1 + ";\n"@,
{
    earlier_lines_decide(lines, line, lines.len());
    earlier_imports_decide(imports, import, imports.len());
    assert(lines.push(line)[lines.len() as int] == line);
    assert(imports.push(import)[imports.len() as int] == import);
}

proof fn earlier_lines_decide(lines: Seq<Seq<char>>, line: Seq<char>, count: nat)
    requires
        count <= lines.len(),
    ensures
        lines_text(lines.push(line), count) == lines_text(lines, count),
    decreases count,
{
    if count > 0 {
        earlier_lines_decide(lines, line, (count - 1) as nat);
        assert(lines.push(line)[count - 1] == lines[count - 1]);
    }
}

proof fn earlier_imports_decide(
    imports: Seq<(Seq<char>, Seq<char>)>,
    import: (Seq<char>, Seq<char>),
    count: nat,
)
    requires
        count <= imports.len(),
    ensures
        import_text(imports.push(import), count) == import_text(imports, count),
    decreases count,
{
    if count > 0 {
        earlier_imports_decide(imports, import, (count - 1) as nat);
        assert(imports.push(import)[count - 1] == imports[count - 1]);
    }
}

} // verus!
