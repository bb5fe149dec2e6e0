//! Deterministic root WESL emission.

use crate::text::{cat, contains, copy, decimal, number, occurs, opt_view, views};
use vstd::prelude::*;

verus! {

/// The expressions that a lowered surface hands to the renderer.
#[derive(Debug)]
pub struct SurfaceExpressions {
    pub base_color: String,
    pub metalness: String,
    pub roughness: String,
    pub emission: String,
    pub opacity: String,
    pub normal: Option<String>,
    pub alpha_blend: bool,
}

/// A lowered surface, with its code as character sequences.
#[verifier::ext_equal]
pub struct SurfaceView {
    pub base_color: Seq<char>,
    pub metalness: Seq<char>,
    pub roughness: Seq<char>,
    pub emission: Seq<char>,
    pub opacity: Seq<char>,
    pub normal: Option<Seq<char>>,
    pub alpha_blend: bool,
}

impl View for SurfaceExpressions {
    type V = SurfaceView;

    open spec fn view(&self) -> SurfaceView {
        SurfaceView {
            base_color: self.base_color@,
            metalness: self.metalness@,
            roughness: self.roughness@,
            emission: self.emission@,
            opacity: self.opacity@,
            normal: opt_view(self.normal),
            alpha_blend: self.alpha_blend,
        }
    }
}

/// The Bevy PBR imports that open every module.
pub const PBR_IMPORTS: &'static str = "import bevy_pbr::render::{\n    forward_io::{VertexOutput, FragmentOutput},\n    pbr_fragment::pbr_input_from_vertex_output,\n    pbr_functions::{apply_pbr_lighting, main_pass_post_lighting_processing},\n    pbr_types::STANDARD_MATERIAL_FLAGS_ALPHA_MODE_BLEND,\n};\n";

/// The uniform block.
pub const UNIFORM_BLOCK: &'static str = "\nstruct MaterialXUniforms {\n    values: array<vec4f, 64>,\n}\n@group(constants::MATERIAL_BIND_GROUP) @binding(0)\nvar<uniform> materialx: MaterialXUniforms;\n";

/// The parameter struct and the head of the graph function.
pub const GRAPH_HEAD: &'static str = "\nstruct MaterialXPbrParams {\n    base_color: vec3f,\n    metalness: f32,\n    roughness: f32,\n    emission: vec3f,\n    opacity: f32,\n    normal: vec3f,\n}\n\nfn materialx_graph(uv: vec2f) -> MaterialXPbrParams {\n";

/// The fragment entry point up to the optional assignments.
pub const FRAGMENT_HEAD: &'static str = "@fragment\nfn fragment(in: VertexOutput, @builtin(front_facing) is_front: bool) -> FragmentOutput {\n    var materialx_uv = vec2f(0.0);\n@if(VERTEX_UVS_A)\n    materialx_uv = in.uv;\n    let mx = materialx_graph(materialx_uv);\n    var pbr_input = pbr_input_from_vertex_output(in, is_front, false);\n    pbr_input.material.base_color = vec4f(mx.base_color, mx.opacity);\n    pbr_input.material.metallic = clamp(mx.metalness, 0.0, 1.0);\n    pbr_input.material.perceptual_roughness = clamp(mx.roughness, 0.0, 1.0);\n    pbr_input.material.emissive = vec4f(mx.emission, 1.0);\n";

/// The assignment that turns alpha blending on.
pub const BLEND_FLAG: &'static str = "    pbr_input.material.flags = pbr_input.material.flags | STANDARD_MATERIAL_FLAGS_ALPHA_MODE_BLEND;\n";

/// The assignment that applies the compiled normal.
pub const NORMAL_LINE: &'static str = "    pbr_input.N = normalize(mx.normal);\n";

/// The end of the fragment entry point.
pub const FRAGMENT_TAIL: &'static str = "    var out: FragmentOutput;\n    out.color = apply_pbr_lighting(pbr_input);\n    out.color = main_pass_post_lighting_processing(pbr_input, out.color);\n    return out;\n}\n";

/// What a list of imports holds.
pub open spec fn import_views(list: Seq<(String, String)>) -> Seq<(Seq<char>, Seq<char>)> {
    list.map_values(|p: (String, String)| (p.0@, p.1@))
}

/// One import line for each of the first `count` pairs.
pub open spec fn import_text(imports: Seq<(Seq<char>, Seq<char>)>, count: nat) -> Seq<char>
    decreases count,
{
    if count == 0 {
        Seq::empty()
    } else {
        import_text(imports, (count - 1) as nat) + "import materialx::"@ + imports[count - 1].0
            + "::"@ + imports[count - 1].1 + ";\n"@
    }
}

/// Some line names texture `index`.
pub open spec fn names_texture(lines: Seq<Seq<char>>, index: nat) -> bool {
    exists|k: int|
        0 <= k < lines.len() && occurs(#[trigger] lines[k], "materialx_texture_"@ + decimal(index))
}

/// How many textures the lines need: one more than the highest of the four
/// that they name.
pub open spec fn textures_named(lines: Seq<Seq<char>>) -> nat {
    if names_texture(lines, 3) {
        4
    } else if names_texture(lines, 2) {
        3
    } else if names_texture(lines, 1) {
        2
    } else if names_texture(lines, 0) {
        1
    } else {
        0
    }
}

/// The declarations of texture `index` and its sampler.
pub open spec fn binding_text(index: nat) -> Seq<char> {
    "@group(constants::MATERIAL_BIND_GROUP) @binding("@ + decimal(1 + index * 2)
        + ") var materialx_texture_"@ + decimal(index) + ": texture_2d<f32>;\n"@
        + "@group(constants::MATERIAL_BIND_GROUP) @binding("@ + decimal(2 + index * 2)
        + ") var materialx_sampler_"@ + decimal(index) + ": sampler;\n"@
}

/// The declarations of the first `count` textures.
pub open spec fn bindings_text(count: nat) -> Seq<char>
    decreases count,
{
    if count == 0 {
        Seq::empty()
    } else {
        bindings_text((count - 1) as nat) + binding_text((count - 1) as nat)
    }
}

/// The first `count` lines, each ended by a newline.
pub open spec fn lines_text(lines: Seq<Seq<char>>, count: nat) -> Seq<char>
    decreases count,
{
    if count == 0 {
        Seq::empty()
    } else {
        lines_text(lines, (count - 1) as nat) + lines[count - 1] + "\n"@
    }
}

/// The graph function's result.
pub open spec fn return_text(surface: SurfaceView) -> Seq<char> {
    "    return MaterialXPbrParams(\n        "@ + surface.base_color + ",\n        "@
        + surface.metalness + ",\n        "@ + surface.roughness + ",\n        "@ + surface.emission
        + ",\n        "@ + surface.opacity + ",\n        "@ + (match surface.normal {
        Some(code) => code,
        None => "vec3f(0.0)"@,
    }) + ",\n    );\n}\n\n"@
}

/// The whole module.
pub open spec fn root_text(
    imports: Seq<(Seq<char>, Seq<char>)>,
    lines: Seq<Seq<char>>,
    surface: SurfaceView,
) -> Seq<char> {
    PBR_IMPORTS@ + import_text(imports, imports.len()) + UNIFORM_BLOCK@ + bindings_text(
        textures_named(lines),
    ) + GRAPH_HEAD@ + lines_text(lines, lines.len()) + return_text(surface) + FRAGMENT_HEAD@ + (
    if surface.alpha_blend {
        BLEND_FLAG@
    } else {
        Seq::empty()
    }) + (if surface.normal is Some {
        NORMAL_LINE@
    } else {
        Seq::empty()
    }) + FRAGMENT_TAIL@
}

fn any_line_names(lines: &Vec<String>, index: u64) -> (r: bool)
    ensures
        r == names_texture(views(lines@), index as nat),
{
    let name = cat("materialx_texture_", number(index).as_str());
    for k in 0..lines.len()
        invariant
            name@ == "materialx_texture_"@ + decimal(index as nat),
            forall|i: int| 0 <= i < k ==> !occurs(#[trigger] views(lines@)[i], name@),
    {
        assert(views(lines@)[k as int] == lines@[k as int]@);
        if contains(lines[k].as_str(), name.as_str()) {
            return true;
        }
    }
    false
}

fn texture_count(lines: &Vec<String>) -> (r: u64)
    ensures
        r == textures_named(views(lines@)),
        r <= 4,
{
    if any_line_names(lines, 3) {
        4
    } else if any_line_names(lines, 2) {
        3
    } else if any_line_names(lines, 1) {
        2
    } else if any_line_names(lines, 0) {
        1
    } else {
        0
    }
}

/// The WESL module of a lowered surface.
pub fn root_module(
    imports: &Vec<(String, String)>,
    graph_lines: &Vec<String>,
    surface: &SurfaceExpressions,
) -> (r: String)
    ensures
        r@ == root_text(import_views(imports@), views(graph_lines@), surface@),
{
    let mut source = copy(PBR_IMPORTS);
    let ghost start = source@;
    for i in 0..imports.len()
        invariant
            source@ == start + import_text(import_views(imports@), i as nat),
    {
        let ghost before = source@;
        source.append("import materialx::");
        source.append(imports[i].0.as_str());
        source.append("::");
        source.append(imports[i].1.as_str());
        source.append(";\n");
        assert(import_views(imports@)[i as int] == (imports@[i as int].0@, imports@[i as int].1@));
        assert(source@ =~= start + import_text(import_views(imports@), i as nat + 1));
    }
    assert(start + import_text(import_views(imports@), imports@.len()) == source@);
    source.append(UNIFORM_BLOCK);
    let ghost start = source@;
    let count: u64 = texture_count(graph_lines);
    for i in 0..count
        invariant
            count <= 4,
            source@ == start + bindings_text(i as nat),
    {
        let texture_binding: u64 = 1 + i * 2;
        let sampler_binding: u64 = texture_binding + 1;
        let index = number(i);
        source.append("@group(constants::MATERIAL_BIND_GROUP) @binding(");
        source.append(number(texture_binding).as_str());
        source.append(") var materialx_texture_");
        source.append(index.as_str());
        source.append(": texture_2d<f32>;\n");
        source.append("@group(constants::MATERIAL_BIND_GROUP) @binding(");
        source.append(number(sampler_binding).as_str());
        source.append(") var materialx_sampler_");
        source.append(index.as_str());
        source.append(": sampler;\n");
        assert(source@ =~= start + bindings_text(i as nat + 1));
    }
    source.append(GRAPH_HEAD);
    let ghost start = source@;
    for i in 0..graph_lines.len()
        invariant
            source@ == start + lines_text(views(graph_lines@), i as nat),
    {
        source.append(graph_lines[i].as_str());
        source.append("\n");
        assert(views(graph_lines@)[i as int] == graph_lines@[i as int]@);
        assert(source@ =~= start + lines_text(views(graph_lines@), i as nat + 1));
    }
    let ghost start = source@;
    source.append("    return MaterialXPbrParams(\n        ");
    source.append(surface.base_color.as_str());
    source.append(",\n        ");
    source.append(surface.metalness.as_str());
    source.append(",\n        ");
    source.append(surface.roughness.as_str());
    source.append(",\n        ");
    source.append(surface.emission.as_str());
    source.append(",\n        ");
    source.append(surface.opacity.as_str());
    source.append(",\n        ");
    match &surface.normal {
        Some(code) => source.append(code.as_str()),
        None => source.append("vec3f(0.0)"),
    }
    source.append(",\n    );\n}\n\n");
    assert(source@ =~= start + return_text(surface@));
    source.append(FRAGMENT_HEAD);
    if surface.alpha_blend {
        source.append(BLEND_FLAG);
    }
    if surface.normal.is_some() {
        source.append(NORMAL_LINE);
    }
    source.append(FRAGMENT_TAIL);
    assert(source@ =~= root_text(import_views(imports@), views(graph_lines@), surface@));
    source
}

/// Every texture below the count is declared, and no texture that a line
/// names is left out.
pub proof fn named_textures_are_declared(lines: Seq<Seq<char>>, index: nat)
    requires
        index < 4,
        names_texture(lines, index),
    ensures
        index < textures_named(lines) <= 4,
{
}

} // verus!
