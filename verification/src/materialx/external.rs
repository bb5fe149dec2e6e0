//! Discovery and adaptation of standalone MaterialX documents that a USD
//! material references.

use super::compiler::{
    compile_result, texture_views, CompileFailure, CompiledMaterialX, CompiledTexture,
};
use super::diagnostic::{
    diagnostic_views, error_view, DiagnosticCode, DiagnosticView, MaterialXDiagnostic, Severity,
};
use super::graph::{CompiledView, TextureView, MAX_TEXTURES, MAX_UNIFORMS};
use super::value::{
    bool_lane, slot1, slot_views, zero_lane, Lane, LaneView, Slot, SlotView, ONE_BITS,
};
use crate::fspath::{
    directory, directory_of, extension_of, file_extension, join_path, joined, paths_agree,
    same_path,
};
use crate::path::{braces_open_first, leaf_name, name, parent, parent_path};
use crate::text::{
    case_does_not_matter, cat, copy, copy_all, copy_opt, decimal, eq_ignore_case, number, opt_view, same_ignoring_case,
    str_eq, views,
};
use vstd::prelude::*;

verus! {

/// One spec that contributes to a prim: the layer it stands in and the asset
/// paths of its flattened reference list. `Ok(None)` where the layer or the
/// spec is missing or holds no reference list.
#[derive(Debug)]
pub struct LayerSpec {
    pub layer: String,
    pub references: Result<Option<Vec<String>>, String>,
}

/// The prim stack of one prim, strongest spec first.
#[derive(Debug)]
pub struct PrimSite {
    pub path: String,
    pub stack: Result<Vec<LayerSpec>, String>,
}

/// An exact material inside one standalone MaterialX document.
#[derive(Debug, Clone, PartialEq, Eq)]
pub struct ExternalMaterialXSource {
    pub document: String,
    pub material_name: String,
}

/// The path names a MaterialX document.
pub open spec fn is_materialx(path: Seq<char>) -> bool {
    file_extension(path) matches Some(extension) && same_ignoring_case(extension, "mtlx"@)
}

/// Where an authored reference of a layer leads.
pub open spec fn resolved(layer: Seq<char>, authored: Seq<char>) -> Seq<char> {
    joined(directory(layer), authored)
}

/// `list` with `document`, unless a path in it already means the same file.
pub open spec fn with_document(list: Seq<Seq<char>>, document: Seq<char>) -> Seq<Seq<char>> {
    if exists|i: int| 0 <= i < list.len() && same_path(#[trigger] list[i], document) {
        list
    } else {
        list.push(document)
    }
}

/// `list` with the documents that the first `count` references lead to.
pub open spec fn with_references(
    list: Seq<Seq<char>>,
    layer: Seq<char>,
    references: Seq<Seq<char>>,
    count: nat,
) -> Seq<Seq<char>>
    decreases count,
{
    if count == 0 {
        list
    } else {
        let sofar = with_references(list, layer, references, (count - 1) as nat);
        if is_materialx(references[count - 1]) {
            with_document(sofar, resolved(layer, references[count - 1]))
        } else {
            sofar
        }
    }
}

/// The MaterialX documents that the first `count` specs of a prim reference.
pub open spec fn documents(
    material: Seq<char>,
    path: Seq<char>,
    stack: Seq<LayerSpec>,
    count: nat,
) -> Result<Seq<Seq<char>>, DiagnosticView>
    decreases count,
{
    if count == 0 {
        Ok(Seq::empty())
    } else {
        match documents(material, path, stack, (count - 1) as nat) {
            Err(d) => Err(d),
            Ok(sofar) => match stack[count - 1].references {
                Err(e) => Err(
                    error_view(
                        DiagnosticCode::InvalidConnection,
                        material,
                        Some(path),
                        Some("references"@),
                        "cannot read the authored reference list: "@ + e@,
                    ),
                ),
                Ok(None) => Ok(sofar),
                Ok(Some(list)) => Ok(
                    with_references(sofar, stack[count - 1].layer@, views(list@), list@.len()),
                ),
            },
        }
    }
}

/// The first site of `path`.
pub open spec fn find_site(sites: Seq<PrimSite>, path: Seq<char>) -> Option<PrimSite>
    decreases sites.len(),
{
    if sites.len() == 0 {
        None
    } else if sites[0].path@ == path {
        Some(sites[0])
    } else {
        find_site(sites.skip(1), path)
    }
}

/// The one MaterialX document of a scope, if it has any.
pub open spec fn scope_document(
    sites: Seq<PrimSite>,
    material: Seq<char>,
    path: Seq<char>,
) -> Result<Option<Seq<char>>, DiagnosticView> {
    match find_site(sites, path) {
        None => Ok(None),
        Some(site) => match site.stack {
            Err(e) => Err(
                error_view(
                    DiagnosticCode::InvalidConnection,
                    material,
                    Some(path),
                    None,
                    "cannot inspect the USD prim stack: "@ + e@,
                ),
            ),
            Ok(stack) => match documents(material, path, stack@, stack@.len()) {
                Err(d) => Err(d),
                Ok(list) => if list.len() == 0 {
                    Ok(None)
                } else if list.len() == 1 {
                    Ok(Some(list[0]))
                } else {
                    Err(
                        error_view(
                            DiagnosticCode::AmbiguousMaterial,
                            material,
                            Some(path),
                            Some("references"@),
                            decimal(list.len())
                                + " MaterialX documents contribute at the same USD scope"@,
                        ),
                    )
                },
            },
        },
    }
}

/// The nearest scope at or above `path` with a MaterialX document, and that
/// document.
pub open spec fn nearest_document(
    sites: Seq<PrimSite>,
    material: Seq<char>,
    path: Seq<char>,
) -> Result<Option<(Seq<char>, Seq<char>)>, DiagnosticView>
    decreases path.len(),
{
    match scope_document(sites, material, path) {
        Err(d) => Err(d),
        Ok(Some(document)) => Ok(Some((path, document))),
        Ok(None) => match parent_path(path) {
            None => Ok(None),
            Some(above) => if above.len() < path.len() {
                nearest_document(sites, material, above)
            } else {
                Ok(None)
            },
        },
    }
}

/// The reference that introduces a bound material: the scope it stands at, the
/// document and the material's name in it.
pub open spec fn external_reference(sites: Seq<PrimSite>, material: Seq<char>) -> Result<
    Option<(Seq<char>, Seq<char>, Seq<char>)>,
    DiagnosticView,
> {
    match leaf_name(material) {
        None => Err(
            error_view(
                DiagnosticCode::MissingMaterial,
                material,
                None,
                None,
                "bound MaterialX path has no material name"@,
            ),
        ),
        Some(material_name) => match nearest_document(sites, material, material) {
            Err(d) => Err(d),
            Ok(None) => Ok(None),
            Ok(Some((scope, document))) => Ok(Some((scope, document, material_name))),
        },
    }
}

/// The diagnostic of a referenced document that is not there.
pub open spec fn missing_document(
    material: Seq<char>,
    scope: Seq<char>,
    document: Seq<char>,
) -> DiagnosticView {
    error_view(
        DiagnosticCode::MissingAsset,
        material,
        Some(scope),
        Some(document),
        "referenced MaterialX document does not exist"@,
    )
}

/// What the search gives for a reference, when the host says whether the
/// document exists.
pub open spec fn confirmed(
    material: Seq<char>,
    found: (Seq<char>, Seq<char>, Seq<char>),
    exists_there: bool,
) -> Result<Option<(Seq<char>, Seq<char>)>, DiagnosticView> {
    if exists_there {
        Ok(Some((found.1, found.2)))
    } else {
        Err(missing_document(material, found.0, found.1))
    }
}

/// A search result, by what it says: the document and the material's name.
pub open spec fn source_result(
    r: Result<Option<ExternalMaterialXSource>, MaterialXDiagnostic>,
) -> Result<Option<(Seq<char>, Seq<char>)>, DiagnosticView> {
    match r {
        Ok(Some(s)) => Ok(Some((s.document@, s.material_name@))),
        Ok(None) => Ok(None),
        Err(d) => Err(d@),
    }
}

fn is_materialx_path(path: &str) -> (r: bool)
    ensures
        r == is_materialx(path@),
{
    match extension_of(path) {
        Some(extension) => eq_ignore_case(extension.as_str(), "mtlx"),
        None => false,
    }
}

fn resolve_reference(layer: &str, authored: &str) -> (r: String)
    ensures
        r@ == resolved(layer@, authored@),
{
    join_path(directory_of(layer).as_str(), authored)
}

fn add_document(list: &mut Vec<String>, document: String)
    ensures
        views(final(list)@) == with_document(views(old(list)@), document@),
{
    let ghost before = views(list@);
    for i in 0..list.len()
        invariant
            before == views(list@),
            before == views(old(list)@),
            forall|k: int| 0 <= k < i ==> !same_path(#[trigger] before[k], document@),
    {
        assert(before[i as int] == list@[i as int]@);
        if paths_agree(list[i].as_str(), document.as_str()) {
            return;
        }
    }
    list.push(document);
    assert(views(list@) =~= before.push(document@));
}

fn scope_reference(sites: &Vec<PrimSite>, material: &str, path: &str) -> (r: Result<
    Option<String>,
    MaterialXDiagnostic,
>)
    ensures
        match r {
            Ok(found) => scope_document(sites@, material@, path@) == Ok::<
                Option<Seq<char>>,
                DiagnosticView,
            >(opt_view(found)),
            Err(d) => scope_document(sites@, material@, path@) == Err::<
                Option<Seq<char>>,
                DiagnosticView,
            >(d@),
        },
{
    let mut i: usize = 0;
    assert(sites@.skip(0) =~= sites@);
    while i < sites.len() && !str_eq(sites[i].path.as_str(), path)
        invariant
            i <= sites@.len(),
            find_site(sites@, path@) == find_site(sites@.skip(i as int), path@),
        decreases sites@.len() - i,
    {
        assert(sites@.skip(i as int).skip(1) =~= sites@.skip(i as int + 1));
        i = i + 1;
    }
    if i == sites.len() {
        return Ok(None);
    }
    assert(find_site(sites@, path@) == Some(sites@[i as int]));
    let stack = match &sites[i].stack {
        Ok(stack) => stack,
        Err(error) => return Err(
            MaterialXDiagnostic::error(
                DiagnosticCode::InvalidConnection,
                material,
                Some(copy(path)),
                None,
                cat("cannot inspect the USD prim stack: ", error.as_str()).as_str(),
            ),
        ),
    };
    let mut candidates: Vec<String> = Vec::new();
    assert(views(candidates@) =~= Seq::<Seq<char>>::empty());
    for k in 0..stack.len()
        invariant
            find_site(sites@, path@) == Some(sites@[i as int]),
            sites@[i as int].stack == Ok::<Vec<LayerSpec>, String>(*stack),
            documents(material@, path@, stack@, k as nat) == Ok::<Seq<Seq<char>>, DiagnosticView>(
                views(candidates@),
            ),
    {
        let ghost sofar = views(candidates@);
        match &stack[k].references {
            Err(error) => {
                let failure = MaterialXDiagnostic::error(
                    DiagnosticCode::InvalidConnection,
                    material,
                    Some(copy(path)),
                    Some(copy("references")),
                    cat("cannot read the authored reference list: ", error.as_str()).as_str(),
                );
                proof {
                    documents_failure_stays(
                        material@,
                        path@,
                        stack@,
                        k as nat + 1,
                        stack@.len(),
                    );
                }
                return Err(failure);
            },
            Ok(None) => {},
            Ok(Some(references)) => {
                let ghost authored = views(references@);
                for j in 0..references.len()
                    invariant
                        authored == views(references@),
                        k < stack@.len(),
                        views(candidates@) == with_references(
                            sofar,
                            stack@[k as int].layer@,
                            authored,
                            j as nat,
                        ),
                {
                    assert(authored[j as int] == references@[j as int]@);
                    if is_materialx_path(references[j].as_str()) {
                        add_document(
                            &mut candidates,
                            resolve_reference(stack[k].layer.as_str(), references[j].as_str()),
                        );
                    }
                }
            },
        }
    }
    assert(views(candidates@).len() == candidates@.len());
    if candidates.len() == 0 {
        Ok(None)
    } else if candidates.len() == 1 {
        assert(views(candidates@)[0] == candidates@[0]@);
        Ok(Some(copy(candidates[0].as_str())))
    } else {
        Err(
            MaterialXDiagnostic::error(
                DiagnosticCode::AmbiguousMaterial,
                material,
                Some(copy(path)),
                Some(copy("references")),
                cat(
                    number(candidates.len() as u64).as_str(),
                    " MaterialX documents contribute at the same USD scope",
                ).as_str(),
            ),
        )
    }
}

proof fn documents_failure_stays(
    material: Seq<char>,
    path: Seq<char>,
    stack: Seq<LayerSpec>,
    from: nat,
    to: nat,
)
    requires
        from <= to,
        documents(material, path, stack, from) is Err,
    ensures
        documents(material, path, stack, to) == documents(material, path, stack, from),
    decreases to,
{
    if from < to {
        documents_failure_stays(material, path, stack, from, (to - 1) as nat);
    }
}

proof fn prefixes_open_braces_first(path: Seq<char>, prefix: Seq<char>)
    requires
        braces_open_first(path),
        prefix.is_prefix_of(path),
    ensures
        braces_open_first(prefix),
{
    assert forall|i: int| 0 <= i < prefix.len() && #[trigger] prefix[i] == '}' implies prefix.take(
        i,
    ).contains('{') by {
        assert(path[i] == '}');
        assert(prefix.take(i) =~= path.take(i));
    }
}

/// Locate the `.mtlx` reference that introduces a bound USD material.
///
/// Walking the material and its ancestors finds the authoring prim specs; the
/// layer of each is the anchor for the reference's asset path. `exists_at`
/// tells whether the host has a document.
pub fn find_external_materialx<E: Fn(&str) -> bool>(
    sites: &Vec<PrimSite>,
    material: &str,
    exists_at: &E,
) -> (r: Result<Option<ExternalMaterialXSource>, MaterialXDiagnostic>)
    requires
        braces_open_first(material@),
        forall|path: &str| call_requires(*exists_at, (path,)),
    ensures
        match external_reference(sites@, material@) {
            Err(d) => source_result(r) == Err::<Option<(Seq<char>, Seq<char>)>, DiagnosticView>(d),
            Ok(None) => source_result(r) == Ok::<Option<(Seq<char>, Seq<char>)>, DiagnosticView>(
                None,
            ),
            Ok(Some(found)) => exists|path: &str, answer: bool|
                path@ == found.1 && #[trigger] call_ensures(*exists_at, (path,), answer)
                    && source_result(r) == confirmed(material@, found, answer),
        },
{
    let material_name = match name(material) {
        Some(text) => text,
        None => return Err(
            MaterialXDiagnostic::error(
                DiagnosticCode::MissingMaterial,
                material,
                None,
                None,
                "bound MaterialX path has no material name",
            ),
        ),
    };
    let mut path = copy(material);
    loop
        invariant
            braces_open_first(path@),
            forall|path: &str| call_requires(*exists_at, (path,)),
            leaf_name(material@) == Some(material_name@),
            nearest_document(sites@, material@, material@) == nearest_document(
                sites@,
                material@,
                path@,
            ),
        decreases path@.len(),
    {
        match scope_reference(sites, material, path.as_str()) {
            Err(d) => return Err(d),
            Ok(Some(document)) => {
                let ghost found = (path@, document@, material_name@);
                assert(external_reference(sites@, material@) == Ok::<
                    Option<(Seq<char>, Seq<char>, Seq<char>)>,
                    DiagnosticView,
                >(Some(found)));
                let asked = document.as_str();
                let answer = exists_at(asked);
                assert(call_ensures(*exists_at, (asked,), answer));
                if !answer {
                    let failure = MaterialXDiagnostic::error(
                        DiagnosticCode::MissingAsset,
                        material,
                        Some(path),
                        Some(copy(asked)),
                        "referenced MaterialX document does not exist",
                    );
                    assert(failure@ == missing_document(material@, found.0, found.1));
                    return Err(failure);
                }
                let source = ExternalMaterialXSource { document: copy(asked), material_name };
                return Ok(Some(source));
            },
            Ok(None) => {},
        }
        match parent(path.as_str()) {
            None => return Ok(None),
            Some(above) => {
                proof {
                    if path@.last() == '}' {
                        assert(path@[path@.len() - 1] == '}');
                        assert(path@.take(path@.len() - 1).contains('{'));
                        let head = path@.take(path@.len() - 1);
                        let k = choose|k: int| 0 <= k < head.len() && head[k] == '{';
                        assert(path@[k] == '{');
                    }
                    prefixes_open_braces_first(path@, above@);
                }
                path = above;
            },
        }
    }
}

/// A constant of a standalone document. Floating-point components are IEEE
/// 754 bit patterns.
#[derive(Debug)]
pub enum CoreValue {
    Boolean(bool),
    Integer(i64),
    Float(u32),
    Vector2(u32, u32),
    Vector3(u32, u32, u32),
    Color3(u32, u32, u32),
    Vector4(u32, u32, u32, u32),
    Color4(u32, u32, u32, u32),
    /// Any other value, by the name of its type.
    Other(String),
}

/// What a document compiler reports.
#[derive(Debug, Clone, Copy, PartialEq, Eq, Structural)]
pub enum CoreCode {
    Io,
    XmlSyntax,
    InvalidDocument,
    MissingName,
    DuplicateName,
    InvalidType,
    InvalidValue,
    ConflictingSource,
    MissingMaterial,
    AmbiguousMaterial,
    MissingNode,
    UnknownNode,
    UnsupportedNode,
    AmbiguousNode,
    MissingOutput,
    MissingInput,
    InvalidConnection,
    ConnectionCycle,
    TypeMismatch,
    UnsupportedFeature,
    StandardSurfaceApproximation,
    MissingTexture,
    RelativeAssetWithoutSource,
    ResourceLimit,
    Registry,
}

/// A place in a document.
#[derive(Debug)]
pub struct CoreLocation {
    pub document: Option<String>,
    pub line: u64,
    pub column: u64,
}

/// A diagnostic of the document compiler.
#[derive(Debug)]
pub struct CoreDiagnostic {
    pub severity: Severity,
    pub code: CoreCode,
    pub material: Option<String>,
    pub node: Option<String>,
    pub property: Option<String>,
    pub message: String,
    pub location: Option<CoreLocation>,
}

/// A uniform of a compiled document, with the scope that authored it.
#[derive(Debug)]
pub struct CoreUniform {
    pub name: String,
    pub scope: Option<String>,
    pub value: CoreValue,
}

/// A texture of a compiled document.
#[derive(Debug)]
pub struct CoreTexture {
    pub resolved_path: String,
    pub authored_colorspace: Option<String>,
    pub u_address_mode: String,
    pub v_address_mode: String,
    pub filter_type: String,
}

/// A compiled document with the root module that was emitted for it.
#[derive(Debug)]
pub struct CoreMaterial {
    pub graph_key: u64,
    pub wesl: String,
    pub uniforms: Vec<CoreUniform>,
    pub textures: Vec<CoreTexture>,
    pub blends: bool,
    pub transmission: bool,
    pub required_modules: Vec<String>,
    pub diagnostics: Vec<CoreDiagnostic>,
}

/// Which kind of problem a document compiler's code stands for.
pub open spec fn adapted_code(code: CoreCode) -> DiagnosticCode {
    match code {
        CoreCode::MissingMaterial => DiagnosticCode::MissingMaterial,
        CoreCode::AmbiguousMaterial => DiagnosticCode::AmbiguousMaterial,
        CoreCode::MissingNode | CoreCode::UnknownNode | CoreCode::UnsupportedNode =>
            DiagnosticCode::UnknownNodeDef,
        CoreCode::AmbiguousNode => DiagnosticCode::AmbiguousConnection,
        CoreCode::MissingOutput => DiagnosticCode::UnknownOutput,
        CoreCode::MissingInput => DiagnosticCode::MissingValue,
        CoreCode::InvalidConnection => DiagnosticCode::InvalidConnection,
        CoreCode::ConnectionCycle => DiagnosticCode::ConnectionCycle,
        CoreCode::TypeMismatch => DiagnosticCode::TypeMismatch,
        CoreCode::UnsupportedFeature | CoreCode::StandardSurfaceApproximation =>
            DiagnosticCode::UnsupportedFeature,
        CoreCode::MissingTexture | CoreCode::RelativeAssetWithoutSource =>
            DiagnosticCode::MissingAsset,
        CoreCode::ResourceLimit => DiagnosticCode::ResourceLimit,
        CoreCode::Registry => DiagnosticCode::UnsupportedImplementation,
        _ => DiagnosticCode::InvalidDocument,
    }
}

/// The message with the place it speaks of.
pub open spec fn located_message(message: Seq<char>, location: Option<CoreLocation>) -> Seq<char> {
    match location {
        None => message,
        Some(place) => message + " ("@ + (match place.document {
            Some(document) => document@,
            None => "<MaterialX>"@,
        }) + ":"@ + decimal(place.line as nat) + ":"@ + decimal(place.column as nat) + ")"@,
    }
}

/// The library's form of a document compiler's diagnostic.
pub open spec fn adapted(d: CoreDiagnostic, material_path: Seq<char>) -> DiagnosticView {
    DiagnosticView {
        severity: d.severity,
        code: adapted_code(d.code),
        material: match d.material {
            Some(m) => m@,
            None => material_path,
        },
        node: opt_view(d.node),
        property: opt_view(d.property),
        message: located_message(d.message@, d.location),
    }
}

/// The library's form of a list of diagnostics.
pub open spec fn all_adapted(list: Seq<CoreDiagnostic>, material_path: Seq<char>) -> Seq<
    DiagnosticView,
> {
    list.map_values(|d: CoreDiagnostic| adapted(d, material_path))
}

/// The slot that a document constant fills.
pub open spec fn core_slot(value: CoreValue) -> Result<SlotView, Seq<char>> {
    match value {
        CoreValue::Boolean(b) => Ok(slot1(bool_lane(b))),
        CoreValue::Integer(n) => Ok(slot1(LaneView::Int(n))),
        CoreValue::Float(b) => Ok(slot1(LaneView::Bits32(b))),
        CoreValue::Vector2(x, y) => Ok(
            SlotView {
                x: LaneView::Bits32(x),
                y: LaneView::Bits32(y),
                z: zero_lane(),
                w: zero_lane(),
            },
        ),
        CoreValue::Vector3(x, y, z) | CoreValue::Color3(x, y, z) => Ok(
            SlotView {
                x: LaneView::Bits32(x),
                y: LaneView::Bits32(y),
                z: LaneView::Bits32(z),
                w: zero_lane(),
            },
        ),
        CoreValue::Vector4(x, y, z, w) | CoreValue::Color4(x, y, z, w) => Ok(
            SlotView {
                x: LaneView::Bits32(x),
                y: LaneView::Bits32(y),
                z: LaneView::Bits32(z),
                w: LaneView::Bits32(w),
            },
        ),
        CoreValue::Other(kind) => Err(
            "MaterialX uniform type "@ + kind@
                + " does not fit the Bevy adapter's vec4 value slots"@,
        ),
    }
}

/// The slots of the first `count` uniforms, or the problem of the first one
/// that fits none.
pub open spec fn core_slots(
    uniforms: Seq<CoreUniform>,
    material_path: Seq<char>,
    count: nat,
) -> Result<Seq<SlotView>, DiagnosticView>
    decreases count,
{
    if count == 0 {
        Ok(Seq::empty())
    } else {
        match core_slots(uniforms, material_path, (count - 1) as nat) {
            Err(d) => Err(d),
            Ok(sofar) => match core_slot(uniforms[count - 1].value) {
                Ok(slot) => Ok(sofar.push(slot)),
                Err(message) => Err(
                    error_view(
                        DiagnosticCode::UnsupportedFeature,
                        material_path,
                        opt_view(uniforms[count - 1].scope),
                        Some(uniforms[count - 1].name@),
                        message,
                    ),
                ),
            },
        }
    }
}

/// The colour space holds sRGB-encoded colours: its name is one of three
/// words, in any case.
pub open spec fn is_srgb(colorspace: Seq<char>) -> bool {
    same_ignoring_case(colorspace, "srgb"@) || same_ignoring_case(colorspace, "srgb_texture"@)
        || same_ignoring_case(colorspace, "srgbtexture"@)
}

/// The case of a colour space's name does not matter.
pub proof fn colorspace_case_does_not_matter(a: Seq<char>, b: Seq<char>)
    requires
        same_ignoring_case(a, b),
    ensures
        is_srgb(a) == is_srgb(b),
{
    case_does_not_matter(a, b, "srgb"@);
    case_does_not_matter(a, b, "srgb_texture"@);
    case_does_not_matter(a, b, "srgbtexture"@);
}

/// The library's form of a document texture.
pub open spec fn core_texture(texture: CoreTexture) -> TextureView {
    TextureView {
        path: texture.resolved_path@,
        is_srgb: match texture.authored_colorspace {
            Some(colorspace) => is_srgb(colorspace@),
            None => false,
        },
        u_address_mode: texture.u_address_mode@,
        v_address_mode: texture.v_address_mode@,
        filter_type: texture.filter_type@,
    }
}

/// The library's form of a compiled document.
pub open spec fn adapted_material(core: CoreMaterial, material_path: Seq<char>) -> Result<
    CompiledView,
    Seq<DiagnosticView>,
> {
    match core_slots(core.uniforms@, material_path, core.uniforms@.len()) {
        Err(d) => Err(seq![d]),
        Ok(uniforms) => Ok(
            CompiledView {
                material: material_path,
                wesl: core.wesl@,
                uniforms,
                textures: core.textures@.map_values(|t: CoreTexture| core_texture(t)),
                alpha_blend: core.blends,
                transmission: core.transmission,
                required_modules: views(core.required_modules@),
                diagnostics: all_adapted(core.diagnostics@, material_path),
            },
        ),
    }
}

/// Which kind of problem a document compiler's code stands for.
pub fn adapt_code(code: CoreCode) -> (r: DiagnosticCode)
    ensures
        r == adapted_code(code),
{
    match code {
        CoreCode::Io
        | CoreCode::XmlSyntax
        | CoreCode::InvalidDocument
        | CoreCode::MissingName
        | CoreCode::DuplicateName
        | CoreCode::InvalidType
        | CoreCode::InvalidValue
        | CoreCode::ConflictingSource => DiagnosticCode::InvalidDocument,
        CoreCode::MissingMaterial => DiagnosticCode::MissingMaterial,
        CoreCode::AmbiguousMaterial => DiagnosticCode::AmbiguousMaterial,
        CoreCode::MissingNode | CoreCode::UnknownNode | CoreCode::UnsupportedNode => {
            DiagnosticCode::UnknownNodeDef
        },
        CoreCode::AmbiguousNode => DiagnosticCode::AmbiguousConnection,
        CoreCode::MissingOutput => DiagnosticCode::UnknownOutput,
        CoreCode::MissingInput => DiagnosticCode::MissingValue,
        CoreCode::InvalidConnection => DiagnosticCode::InvalidConnection,
        CoreCode::ConnectionCycle => DiagnosticCode::ConnectionCycle,
        CoreCode::TypeMismatch => DiagnosticCode::TypeMismatch,
        CoreCode::UnsupportedFeature | CoreCode::StandardSurfaceApproximation => {
            DiagnosticCode::UnsupportedFeature
        },
        CoreCode::MissingTexture | CoreCode::RelativeAssetWithoutSource => {
            DiagnosticCode::MissingAsset
        },
        CoreCode::ResourceLimit => DiagnosticCode::ResourceLimit,
        CoreCode::Registry => DiagnosticCode::UnsupportedImplementation,
    }
}

/// The library's form of a document compiler's diagnostic.
pub fn adapt_diagnostic(diagnostic: &CoreDiagnostic, material_path: &str) -> (r:
    MaterialXDiagnostic)
    ensures
        r@ == adapted(*diagnostic, material_path@),
{
    let mut message = copy(diagnostic.message.as_str());
    match &diagnostic.location {
        None => {},
        Some(place) => {
            message.append(" (");
            match &place.document {
                Some(document) => message.append(document.as_str()),
                None => message.append("<MaterialX>"),
            }
            message.append(":");
            message.append(number(place.line).as_str());
            message.append(":");
            message.append(number(place.column).as_str());
            message.append(")");
        },
    }
    let material = match &diagnostic.material {
        Some(material) => copy(material.as_str()),
        None => copy(material_path),
    };
    MaterialXDiagnostic {
        severity: diagnostic.severity,
        code: adapt_code(diagnostic.code),
        material,
        node: copy_opt(&diagnostic.node),
        property: copy_opt(&diagnostic.property),
        message,
    }
}

/// The library's form of a list of diagnostics.
pub fn adapt_diagnostics(list: &Vec<CoreDiagnostic>, material_path: &str) -> (r: Vec<
    MaterialXDiagnostic,
>)
    ensures
        diagnostic_views(r@) == all_adapted(list@, material_path@),
{
    let mut out: Vec<MaterialXDiagnostic> = Vec::new();
    for i in 0..list.len()
        invariant
            out@.len() == i,
            forall|k: int| 0 <= k < i ==> (#[trigger] out@[k])@ == adapted(list@[k], material_path@),
    {
        out.push(adapt_diagnostic(&list[i], material_path));
    }
    assert(diagnostic_views(out@) =~= all_adapted(list@, material_path@));
    out
}

/// The slot that a document constant fills.
pub fn core_value_to_vec4(value: &CoreValue) -> (r: Result<Slot, String>)
    ensures
        super::value::slot_result(r) == core_slot(*value),
{
    match value {
        CoreValue::Boolean(b) => {
            let bits: u32 = if *b {
                ONE_BITS
            } else {
                0
            };
            Ok(four(Lane::Bits32(bits), 0, 0, 0))
        },
        CoreValue::Integer(n) => Ok(four(Lane::Int(*n), 0, 0, 0)),
        CoreValue::Float(b) => Ok(four(Lane::Bits32(*b), 0, 0, 0)),
        CoreValue::Vector2(x, y) => Ok(four(Lane::Bits32(*x), *y, 0, 0)),
        CoreValue::Vector3(x, y, z) => Ok(four(Lane::Bits32(*x), *y, *z, 0)),
        CoreValue::Color3(x, y, z) => Ok(four(Lane::Bits32(*x), *y, *z, 0)),
        CoreValue::Vector4(x, y, z, w) => Ok(four(Lane::Bits32(*x), *y, *z, *w)),
        CoreValue::Color4(x, y, z, w) => Ok(four(Lane::Bits32(*x), *y, *z, *w)),
        CoreValue::Other(kind) => {
            let mut message = copy("MaterialX uniform type ");
            message.append(kind.as_str());
            message.append(" does not fit the Bevy adapter's vec4 value slots");
            Err(message)
        },
    }
}

fn four(x: Lane, y: u32, z: u32, w: u32) -> (r: Slot)
    ensures
        r@ == (SlotView {
            x: x@,
            y: LaneView::Bits32(y),
            z: LaneView::Bits32(z),
            w: LaneView::Bits32(w),
        }),
{
    Slot { x, y: Lane::Bits32(y), z: Lane::Bits32(z), w: Lane::Bits32(w) }
}

/// Whether a colour space holds sRGB-encoded colours.
pub fn is_srgb_colorspace(colorspace: &str) -> (r: bool)
    ensures
        r == is_srgb(colorspace@),
{
    eq_ignore_case(colorspace, "srgb") || eq_ignore_case(colorspace, "srgb_texture")
        || eq_ignore_case(colorspace, "srgbtexture")
}

proof fn slots_failure_stays(
    uniforms: Seq<CoreUniform>,
    material_path: Seq<char>,
    from: nat,
    to: nat,
)
    requires
        from <= to,
        core_slots(uniforms, material_path, from) is Err,
    ensures
        core_slots(uniforms, material_path, to) == core_slots(uniforms, material_path, from),
    decreases to,
{
    if from < to {
        slots_failure_stays(uniforms, material_path, from, (to - 1) as nat);
    }
}

/// The Bevy adapter's form of a compiled document.
pub fn compile_external_materialx(core: CoreMaterial, material_path: &str) -> (r: Result<
    CompiledMaterialX,
    CompileFailure,
>)
    ensures
        compile_result(r) == adapted_material(core, material_path@),
        r matches Ok(c) ==> c.graph_key == core.graph_key,
{
    let mut uniforms: Vec<Slot> = Vec::new();
    assert(slot_views(uniforms@) =~= Seq::<SlotView>::empty());
    for i in 0..core.uniforms.len()
        invariant
            core_slots(core.uniforms@, material_path@, i as nat) == Ok::<
                Seq<SlotView>,
                DiagnosticView,
            >(slot_views(uniforms@)),
    {
        let ghost sofar = slot_views(uniforms@);
        match core_value_to_vec4(&core.uniforms[i].value) {
            Ok(slot) => {
                uniforms.push(slot);
                assert(slot_views(uniforms@) =~= sofar.push(slot@));
            },
            Err(message) => {
                let d = MaterialXDiagnostic::error(
                    DiagnosticCode::UnsupportedFeature,
                    material_path,
                    copy_opt(&core.uniforms[i].scope),
                    Some(copy(core.uniforms[i].name.as_str())),
                    message.as_str(),
                );
                proof {
                    slots_failure_stays(
                        core.uniforms@,
                        material_path@,
                        i as nat + 1,
                        core.uniforms@.len(),
                    );
                }
                let diagnostics = vec![d];
                assert(diagnostic_views(diagnostics@) =~= seq![d@]);
                return Err(CompileFailure { diagnostics });
            },
        }
    }
    let mut textures: Vec<CompiledTexture> = Vec::new();
    for i in 0..core.textures.len()
        invariant
            textures@.len() == i,
            forall|k: int| 0 <= k < i ==> (#[trigger] textures@[k])@ == core_texture(core.textures@[k]),
    {
        let texture = &core.textures[i];
        textures.push(
            CompiledTexture {
                path: copy(texture.resolved_path.as_str()),
                is_srgb: match &texture.authored_colorspace {
                    Some(colorspace) => is_srgb_colorspace(colorspace.as_str()),
                    None => false,
                },
                u_address_mode: copy(texture.u_address_mode.as_str()),
                v_address_mode: copy(texture.v_address_mode.as_str()),
                filter_type: copy(texture.filter_type.as_str()),
            },
        );
    }
    assert(texture_views(textures@) =~= core.textures@.map_values(
        |t: CoreTexture| core_texture(t),
    ));
    let diagnostics = adapt_diagnostics(&core.diagnostics, material_path);
    Ok(
        CompiledMaterialX {
            material: copy(material_path),
            graph_key: core.graph_key,
            wesl: core.wesl,
            uniforms,
            textures,
            alpha_blend: core.blends,
            transmission: core.transmission,
            required_modules: copy_all(&core.required_modules),
            diagnostics,
        },
    )
}

/// The failure of a document that did not load or compile.
pub fn external_failure(list: &Vec<CoreDiagnostic>, material_path: &str) -> (r: CompileFailure)
    ensures
        diagnostic_views(r.diagnostics@) == all_adapted(list@, material_path@),
{
    CompileFailure { diagnostics: adapt_diagnostics(list, material_path) }
}

/// How much of a document its compiler takes on.
#[derive(Debug, Clone, Copy, PartialEq, Eq, Structural)]
pub struct DocumentLimits {
    pub max_nodes: usize,
    pub max_depth: usize,
    pub max_uniforms: usize,
    pub max_textures: usize,
}

/// The limits that a document is compiled with: a material uses no more
/// uniforms and textures than one of a stage.
pub fn document_limits() -> (r: DocumentLimits)
    ensures
        r == (DocumentLimits { max_nodes: 1024, max_depth: 256, max_uniforms: 64, max_textures: 4 }),
        r.max_uniforms == MAX_UNIFORMS,
        r.max_textures == MAX_TEXTURES,
{
    DocumentLimits {
        max_nodes: 1024,
        max_depth: 256,
        max_uniforms: MAX_UNIFORMS,
        max_textures: MAX_TEXTURES,
    }
}

/// Whether the root module of a document needs the normal: where the document
/// reads the geometric normal, the tangent or the bitangent.
pub fn uses_normal(normal: bool, tangent: bool, bitangent: bool) -> (r: bool)
    ensures
        r == (normal || tangent || bitangent),
{
    normal || tangent || bitangent
}

/// How a document is loaded.
#[derive(Debug)]
pub enum DocumentPlan {
    /// Parse this text.
    Parse(String),
    /// Load the file itself.
    Load,
}

/// The text of the error that `String::from_utf8` gives for bytes that are no
/// UTF-8 text.
pub uninterp spec fn utf8_problem(bytes: Seq<u8>) -> Seq<char>;

/// `String::from_utf8`: the text that the bytes encode, or the error's text
/// where they are not valid UTF-8.
#[verifier::external_body]
fn decode(bytes: Vec<u8>) -> (r: Result<String, String>)
    ensures
        r is Ok <==> vstd::utf8::valid_utf8(bytes@),
        r matches Ok(text) ==> text@ == vstd::utf8::decode_utf8(bytes@),
        r matches Err(error) ==> error@ == utf8_problem(bytes@),
{
    String::from_utf8(bytes).map_err(|error| error.to_string())
}

/// A plan, by the text it parses.
pub open spec fn plan_result(r: Result<DocumentPlan, MaterialXDiagnostic>) -> Result<
    Option<Seq<char>>,
    DiagnosticView,
> {
    match r {
        Ok(DocumentPlan::Parse(text)) => Ok(Some(text@)),
        Ok(DocumentPlan::Load) => Ok(None),
        Err(d) => Err(d@),
    }
}

/// How a document is loaded, given what the host's reader returned for it, if
/// there is a reader, and whether the file exists: the text to parse, or
/// `None` for the file itself.
pub open spec fn planned(
    document: Seq<char>,
    material_path: Seq<char>,
    read: Option<Result<Vec<u8>, String>>,
    is_file: bool,
) -> Result<Option<Seq<char>>, DiagnosticView> {
    match read {
        None => Ok(None),
        Some(Ok(bytes)) => if vstd::utf8::valid_utf8(bytes@) {
            Ok(Some(vstd::utf8::decode_utf8(bytes@)))
        } else {
            Err(
                error_view(
                    DiagnosticCode::InvalidDocument,
                    material_path,
                    None,
                    Some(document),
                    "MaterialX document is not UTF-8: "@ + utf8_problem(bytes@),
                ),
            )
        },
        Some(Err(error)) => if is_file {
            Ok(None)
        } else {
            Err(
                error_view(
                    DiagnosticCode::MissingAsset,
                    material_path,
                    None,
                    Some(document),
                    "cannot read MaterialX document: "@ + error@,
                ),
            )
        },
    }
}

/// How a document is loaded: from what the host's reader returned, or from the
/// file where there is no reader or it failed on an existing file.
pub fn load_external_document(
    source: &ExternalMaterialXSource,
    material_path: &str,
    read: Option<Result<Vec<u8>, String>>,
    is_file: bool,
) -> (r: Result<DocumentPlan, MaterialXDiagnostic>)
    ensures
        plan_result(r) == planned(source.document@, material_path@, read, is_file),
{
    match read {
        None => Ok(DocumentPlan::Load),
        Some(Ok(bytes)) => match decode(bytes) {
            Ok(text) => Ok(DocumentPlan::Parse(text)),
            Err(error) => Err(
                MaterialXDiagnostic::error(
                    DiagnosticCode::InvalidDocument,
                    material_path,
                    None,
                    Some(copy(source.document.as_str())),
                    cat("MaterialX document is not UTF-8: ", error.as_str()).as_str(),
                ),
            ),
        },
        Some(Err(error)) => if is_file {
            Ok(DocumentPlan::Load)
        } else {
            Err(
                MaterialXDiagnostic::error(
                    DiagnosticCode::MissingAsset,
                    material_path,
                    None,
                    Some(copy(source.document.as_str())),
                    cat("cannot read MaterialX document: ", error.as_str()).as_str(),
                ),
            )
        },
    }
}

} // verus!
