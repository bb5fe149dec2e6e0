//! Material route: which material a bound prim gets, and with which settings.

use super::signature::{Lanes3, ReadPreviewMaterial, UvTransform};
use crate::float::{below32, less32, ONE};
use crate::materialx::compiler::{
    compile_materialx, compile_outcome, compile_result, has_materialx_terminal, keyed_by_source,
    CompileFailure, CompiledMaterialX,
};
use crate::materialx::diagnostic::{diagnostic_views, DiagnosticView, MaterialXDiagnostic};
use crate::materialx::external::{
    confirmed, external_reference, find_external_materialx, ExternalMaterialXSource, PrimSite,
};
use crate::materialx::graph::{opts_in, Graph};
use crate::materialx::registry::MaterialXRegistry;
use crate::path::braces_open_first;
use crate::stage::Stage;
use crate::text::{copy_opt, opt_view, starts_with, views};
use vstd::prelude::*;

verus! {

/// The base colour of a preview surface.
#[derive(Debug, Clone, Copy, PartialEq, Eq, Structural)]
pub enum PreviewColor {
    /// The renderer's default.
    Unchanged,
    /// The default with this alpha lane.
    AlphaOnly(u32),
    /// An sRGB colour with an alpha lane.
    Srgba(Lanes3, u32),
}

/// The settings that a preview surface changes on a default material. Numbers
/// are float lanes; what is absent keeps the renderer's default.
#[derive(Debug)]
pub struct PreviewSettings {
    pub base_color: PreviewColor,
    pub blend: bool,
    pub roughness: Option<u32>,
    pub metallic: Option<u32>,
    pub emissive: Option<Lanes3>,
    pub ior: Option<u32>,
    pub uv_transform: Option<UvTransform>,
    pub base_color_texture: Option<String>,
    pub normal_map_texture: Option<String>,
    pub metallic_roughness_texture: Option<String>,
    pub emissive_texture: Option<String>,
    pub occlusion_texture: Option<String>,
}

/// The base colour of a preview surface.
pub open spec fn preview_color(read: ReadPreviewMaterial) -> PreviewColor {
    match (read.diffuse_color, read.opacity) {
        (Some(c), Some(a)) => PreviewColor::Srgba(c, a),
        (Some(c), None) => PreviewColor::Srgba(c, ONE),
        (None, Some(a)) => PreviewColor::AlphaOnly(a),
        (None, None) => PreviewColor::Unchanged,
    }
}

/// A texture that is only used where there is something to load it with.
pub open spec fn loadable(path: Option<Seq<char>>, has_server: bool) -> Option<Seq<char>> {
    if has_server {
        path
    } else {
        None
    }
}

fn loaded(path: &Option<String>, has_server: bool) -> (r: Option<String>)
    ensures
        opt_view(r) == loadable(opt_view(*path), has_server),
{
    if has_server {
        copy_opt(path)
    } else {
        None
    }
}

/// The settings of a preview surface. Textures come in only where the host can
/// load them.
pub fn to_standard_material(read: &ReadPreviewMaterial, has_server: bool) -> (r: PreviewSettings)
    ensures
        r.base_color == preview_color(*read),
        r.blend == (read.opacity is Some && below32(read.opacity->0, ONE)),
        r.roughness == read.roughness,
        r.metallic == read.metallic,
        r.emissive == read.emissive_color,
        r.ior == read.ior,
        r.uv_transform == read.uv_transform,
        opt_view(r.base_color_texture) == loadable(read@.diffuse_texture, has_server),
        opt_view(r.normal_map_texture) == loadable(read@.normal_texture, has_server),
        opt_view(r.metallic_roughness_texture) == loadable(read@.metallic_texture, has_server),
        opt_view(r.emissive_texture) == loadable(read@.emissive_texture, has_server),
        opt_view(r.occlusion_texture) == loadable(read@.occlusion_texture, has_server),
{
    let base_color = match (read.diffuse_color, read.opacity) {
        (Some(c), Some(a)) => PreviewColor::Srgba(c, a),
        (Some(c), None) => PreviewColor::Srgba(c, ONE),
        (None, Some(a)) => PreviewColor::AlphaOnly(a),
        (None, None) => PreviewColor::Unchanged,
    };
    let blend = match read.opacity {
        Some(a) => less32(a, ONE),
        None => false,
    };
    PreviewSettings {
        base_color,
        blend,
        roughness: read.roughness,
        metallic: read.metallic,
        emissive: read.emissive_color,
        ior: read.ior,
        uv_transform: read.uv_transform,
        base_color_texture: loaded(&read.diffuse_texture, has_server),
        normal_map_texture: loaded(&read.normal_texture, has_server),
        metallic_roughness_texture: loaded(&read.metallic_texture, has_server),
        emissive_texture: loaded(&read.emissive_texture, has_server),
        occlusion_texture: loaded(&read.occlusion_texture, has_server),
    }
}

/// The visible magenta surface of a material that failed: diffuse 1, 0, 1,
/// roughness 0.35 and emission 0.25, 0, 0.25.
pub fn fallback_preview() -> (r: ReadPreviewMaterial)
    ensures
        r.diffuse_color == Some(Lanes3 { x: ONE, y: 0, z: ONE }),
        r.roughness == Some(0x3eb3_3333u32),
        r.emissive_color == Some(Lanes3 { x: 0x3e80_0000, y: 0, z: 0x3e80_0000 }),
        r.opacity is None,
        r.opacity_threshold is None,
        r.metallic is None,
        r.ior is None,
        r.diffuse_texture is None,
        r.normal_texture is None,
        r.roughness_texture is None,
        r.metallic_texture is None,
        r.opacity_texture is None,
        r.emissive_texture is None,
        r.occlusion_texture is None,
        r.uv_transform is None,
{
    ReadPreviewMaterial {
        diffuse_color: Some(Lanes3 { x: ONE, y: 0, z: ONE }),
        opacity: None,
        opacity_threshold: None,
        roughness: Some(0x3eb3_3333),
        metallic: None,
        emissive_color: Some(Lanes3 { x: 0x3e80_0000, y: 0, z: 0x3e80_0000 }),
        ior: None,
        diffuse_texture: None,
        normal_texture: None,
        roughness_texture: None,
        metallic_texture: None,
        opacity_texture: None,
        emissive_texture: None,
        occlusion_texture: None,
        uv_transform: None,
    }
}

/// What the MaterialX part of a bound material leads to.
pub enum MaterialXStep {
    /// The graph was compiled, or failed.
    Done(Result<CompiledMaterialX, CompileFailure>),
    /// Compile this standalone document.
    CompileDocument(ExternalMaterialXSource),
    /// The material is no MaterialX material: read its preview surface.
    NotMaterialX,
}

/// The graph of a bound material.
pub open spec fn bound_graph(stage: Stage, binding: Seq<char>, registry: MaterialXRegistry) -> Graph {
    Graph { stage, material: binding, nodes: registry.descriptors() }
}

/// The step for a binding whose search for a document ended with `found`: the
/// document and the material's name.
pub open spec fn external_step(
    step: MaterialXStep,
    found: Result<Option<(Seq<char>, Seq<char>)>, DiagnosticView>,
) -> bool {
    match found {
        Ok(Some(source)) => step matches MaterialXStep::CompileDocument(s) && s.document@
            == source.0 && s.material_name@ == source.1,
        Ok(None) => step == MaterialXStep::NotMaterialX,
        Err(d) => step matches MaterialXStep::Done(Err(f)) && diagnostic_views(f.diagnostics@)
            == seq![d],
    }
}

/// What the MaterialX part of a bound material leads to: a connected terminal
/// is compiled; without one, a referenced document is looked for. `exists_at`
/// tells whether the host has a document.
pub fn materialx_step<E: Fn(&str) -> bool>(
    stage: &Stage,
    sites: &Vec<PrimSite>,
    binding: &str,
    registry: &MaterialXRegistry,
    exists_at: &E,
) -> (r: MaterialXStep)
    requires
        registry.validated(),
        braces_open_first(binding@),
        forall|path: &str| call_requires(*exists_at, (path,)),
    ensures
        opts_in(bound_graph(*stage, binding@, *registry)) ==> (r matches MaterialXStep::Done(c)
            && compile_result(c) == compile_outcome(bound_graph(*stage, binding@, *registry)) && (
            c matches Ok(m) ==> keyed_by_source(m))),
        !opts_in(bound_graph(*stage, binding@, *registry)) ==> match external_reference(
            sites@,
            binding@,
        ) {
            Err(d) => external_step(r, Err(d)),
            Ok(None) => external_step(r, Ok(None)),
            Ok(Some(found)) => exists|path: &str, answer: bool|
                path@ == found.1 && #[trigger] call_ensures(*exists_at, (path,), answer)
                    && external_step(r, confirmed(binding@, found, answer)),
        },
{
    if has_materialx_terminal(stage, binding, registry) {
        return MaterialXStep::Done(compile_materialx(stage, binding, registry));
    }
    match find_external_materialx(sites, binding, exists_at) {
        Ok(Some(source)) => MaterialXStep::CompileDocument(source),
        Ok(None) => MaterialXStep::NotMaterialX,
        Err(diagnostic) => {
            let diagnostics = vec![diagnostic];
            assert(diagnostic_views(diagnostics@) =~= seq![diagnostic@]);
            MaterialXStep::Done(Err(CompileFailure { diagnostics }))
        },
    }
}

/// What to do with a compiled or failed material.
pub enum MaterialAction {
    /// Prepare and attach the compiled material.
    Attach(CompiledMaterialX),
    /// Nothing can hold the material; leave the entity as it is.
    Unavailable,
    /// Attach the visible fallback with these diagnostics.
    Fallback(Vec<MaterialXDiagnostic>),
}

fn duplicates(list: &Vec<MaterialXDiagnostic>) -> (r: Vec<MaterialXDiagnostic>)
    ensures
        diagnostic_views(r@) == diagnostic_views(list@),
{
    let mut out: Vec<MaterialXDiagnostic> = Vec::new();
    for i in 0..list.len()
        invariant
            out@.len() == i,
            forall|k: int| 0 <= k < i ==> (#[trigger] out@[k])@ == list@[k]@,
    {
        out.push(list[i].duplicate());
    }
    assert(diagnostic_views(out@) =~= diagnostic_views(list@));
    out
}

/// What to do with a compiled or failed material, and the diagnostics to
/// record first: those of the result, in order.
pub fn material_action(
    result: Result<CompiledMaterialX, CompileFailure>,
    has_material_assets: bool,
) -> (r: (Vec<MaterialXDiagnostic>, MaterialAction))
    ensures
        match result {
            Ok(compiled) => diagnostic_views(r.0@) == compiled@.diagnostics && (
            if has_material_assets {
                r.1 == MaterialAction::Attach(compiled)
            } else {
                r.1 == MaterialAction::Unavailable
            }),
            Err(failure) => diagnostic_views(r.0@) == diagnostic_views(failure.diagnostics@)
                && r.1 == MaterialAction::Fallback(failure.diagnostics),
        },
{
    match result {
        Ok(compiled) => {
            let recorded = duplicates(&compiled.diagnostics);
            if has_material_assets {
                (recorded, MaterialAction::Attach(compiled))
            } else {
                (recorded, MaterialAction::Unavailable)
            }
        },
        Err(failure) => {
            let recorded = duplicates(&failure.diagnostics);
            (recorded, MaterialAction::Fallback(failure.diagnostics))
        },
    }
}

/// Whether a change of this property can change the bound material.
pub fn material_property(name: &str) -> (r: bool)
    ensures
        r == "material:binding"@.is_prefix_of(name@),
{
    starts_with(name, "material:binding")
}

/// Whether the material is projected again after these properties changed; an
/// empty list means that anything may have.
pub fn patches_material(changed: &Vec<String>) -> (r: bool)
    ensures
        r == (changed@.len() == 0 || exists|i: int|
            0 <= i < changed@.len() && "material:binding"@.is_prefix_of(
                #[trigger] views(changed@)[i],
            )),
{
    if changed.len() == 0 {
        return true;
    }
    for i in 0..changed.len()
        invariant
            forall|k: int|
                0 <= k < i ==> !"material:binding"@.is_prefix_of(#[trigger] views(changed@)[k]),
    {
        assert(views(changed@)[i as int] == changed@[i as int]@);
        if material_property(changed[i].as_str()) {
            return true;
        }
    }
    false
}

} // verus!
