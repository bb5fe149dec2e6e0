//! What is kept of a standalone document: which document a material comes
//! from, and what its compiled form carries over.

use super::diagnostic::{DiagnosticCode, DiagnosticView, MaterialXDiagnostic};
use super::external::{
    adapted, adapted_code, adapted_material, all_adapted, confirmed, core_slot, core_slots,
    core_texture, documents, external_reference, find_site, is_materialx, located_message,
    missing_document, nearest_document, plan_result, planned, resolved, scope_document,
    source_result, utf8_problem, with_document, with_references, CoreCode, CoreDiagnostic,
    CoreLocation, CoreMaterial, CoreTexture, CoreUniform, CoreValue, DocumentPlan,
    ExternalMaterialXSource, LayerSpec, PrimSite,
};
use super::value::{LaneView, SlotView};
use super::value_laws::fills;
use crate::assoc::pushed_members;
use crate::fspath::{file_extension, same_path};
use crate::path::{leaf_name, parent_path};
use crate::text::{decimal, opt_view, same_ignoring_case, views};
use crate::text_laws::same_paths_have_the_same_components;
use vstd::prelude::*;

verus! {

/// Each problem of a document is reported as the library's problem of the same
/// kind; whatever is wrong with the document as a text is an invalid document.
pub proof fn document_problems_keep_their_kind(code: CoreCode)
    ensures
        adapted_code(CoreCode::MissingMaterial) == DiagnosticCode::MissingMaterial,
        adapted_code(CoreCode::AmbiguousMaterial) == DiagnosticCode::AmbiguousMaterial,
        code is MissingNode || code is UnknownNode || code is UnsupportedNode ==> adapted_code(code)
            == DiagnosticCode::UnknownNodeDef,
        adapted_code(CoreCode::AmbiguousNode) == DiagnosticCode::AmbiguousConnection,
        adapted_code(CoreCode::MissingOutput) == DiagnosticCode::UnknownOutput,
        adapted_code(CoreCode::MissingInput) == DiagnosticCode::MissingValue,
        adapted_code(CoreCode::InvalidConnection) == DiagnosticCode::InvalidConnection,
        adapted_code(CoreCode::ConnectionCycle) == DiagnosticCode::ConnectionCycle,
        adapted_code(CoreCode::TypeMismatch) == DiagnosticCode::TypeMismatch,
        code is UnsupportedFeature || code is StandardSurfaceApproximation ==> adapted_code(code)
            == DiagnosticCode::UnsupportedFeature,
        code is MissingTexture || code is RelativeAssetWithoutSource ==> adapted_code(code)
            == DiagnosticCode::MissingAsset,
        adapted_code(CoreCode::ResourceLimit) == DiagnosticCode::ResourceLimit,
        adapted_code(CoreCode::Registry) == DiagnosticCode::UnsupportedImplementation,
        code is Io || code is XmlSyntax || code is InvalidDocument || code is MissingName || code
            is DuplicateName || code is InvalidType || code is InvalidValue || code
            is ConflictingSource ==> adapted_code(code) == DiagnosticCode::InvalidDocument,
{
}

/// An adapted diagnostic keeps severity, node and property. It names its own
/// material, or else the bound one, and tells the place after the message.
pub proof fn adapted_diagnostics_keep_what_they_say(d: CoreDiagnostic, path: Seq<char>)
    ensures
        adapted(d, path).severity == d.severity,
        adapted(d, path).code == adapted_code(d.code),
        adapted(d, path).node == opt_view(d.node),
        adapted(d, path).property == opt_view(d.property),
        d.material matches Some(m) ==> adapted(d, path).material == m@,
        d.material is None ==> adapted(d, path).material == path,
        d.location is None ==> adapted(d, path).message == d.message@,
        d.location matches Some(place) ==> d.message@.is_prefix_of(adapted(d, path).message),
        d.location matches Some(place) ==> (place.document matches Some(document) ==> adapted(
            d,
            path,
        ).message == d.message@ + " ("@ + document@ + ":"@ + decimal(place.line as nat) + ":"@
            + decimal(place.column as nat) + ")"@),
{
    if let Some(place) = d.location {
        let all = adapted(d, path).message;
        assert(d.message@ =~= all.subrange(0, d.message@.len() as int));
    }
}

/// A list of diagnostics is adapted one by one, in order.
pub proof fn adapted_lists_keep_their_order(list: Seq<CoreDiagnostic>, path: Seq<char>, i: int)
    requires
        0 <= i < list.len(),
    ensures
        all_adapted(list, path).len() == list.len(),
        all_adapted(list, path)[i] == adapted(list[i], path),
{
}

/// A document constant fills the lanes of its slot in order, zeros after them.
pub proof fn document_constants_fill_their_lanes(value: CoreValue)
    ensures
        value matches CoreValue::Boolean(b) ==> (core_slot(value) matches Ok(s) && fills(
            s,
            seq![
                LaneView::Bits32(
                    if b {
                        0x3f80_0000
                    } else {
                        0
                    },
                ),
            ],
        )),
        value matches CoreValue::Integer(n) ==> (core_slot(value) matches Ok(s) && fills(
            s,
            seq![LaneView::Int(n)],
        )),
        value matches CoreValue::Float(b) ==> (core_slot(value) matches Ok(s) && fills(
            s,
            seq![LaneView::Bits32(b)],
        )),
        value matches CoreValue::Vector2(x, y) ==> (core_slot(value) matches Ok(s) && fills(
            s,
            seq![LaneView::Bits32(x), LaneView::Bits32(y)],
        )),
        value matches CoreValue::Vector3(x, y, z) ==> (core_slot(value) matches Ok(s) && fills(
            s,
            seq![LaneView::Bits32(x), LaneView::Bits32(y), LaneView::Bits32(z)],
        )),
        value matches CoreValue::Color3(x, y, z) ==> (core_slot(value) matches Ok(s) && fills(
            s,
            seq![LaneView::Bits32(x), LaneView::Bits32(y), LaneView::Bits32(z)],
        )),
        value matches CoreValue::Vector4(x, y, z, w) ==> (core_slot(value) matches Ok(s) && fills(
            s,
            seq![LaneView::Bits32(x), LaneView::Bits32(y), LaneView::Bits32(z), LaneView::Bits32(w)],
        )),
        value matches CoreValue::Color4(x, y, z, w) ==> (core_slot(value) matches Ok(s) && fills(
            s,
            seq![LaneView::Bits32(x), LaneView::Bits32(y), LaneView::Bits32(z), LaneView::Bits32(w)],
        )),
        value is Other <==> core_slot(value) is Err,
{
}

/// Where every constant fits a slot, each has its own, in order; where one does
/// not, the error tells the scope and name of the first that does not.
pub proof fn document_constants_have_their_slots(
    uniforms: Seq<CoreUniform>,
    path: Seq<char>,
    count: nat,
)
    requires
        count <= uniforms.len(),
    ensures
        core_slots(uniforms, path, count) is Ok <==> forall|k: int|
            0 <= k < count ==> !((#[trigger] uniforms[k]).value is Other),
        core_slots(uniforms, path, count) matches Ok(slots) ==> slots.len() == count && forall|
            k: int,
        |
            0 <= k < count ==> core_slot(uniforms[k].value) == Ok::<SlotView, Seq<char>>(
                #[trigger] slots[k],
            ),
        core_slots(uniforms, path, count) matches Err(d) ==> exists|k: int|
            0 <= k < count && (#[trigger] uniforms[k]).value is Other && d.node == opt_view(
                uniforms[k].scope,
            ) && d.property == Some(uniforms[k].name@) && d.material == path && forall|j: int|
                0 <= j < k ==> !((#[trigger] uniforms[j]).value is Other),
    decreases count,
{
    if count > 0 {
        document_constants_have_their_slots(uniforms, path, (count - 1) as nat);
        document_constants_fill_their_lanes(uniforms[count - 1].value);
    }
}

/// A document texture keeps its path, its address modes and its filter. It is
/// sRGB only where its colour space is authored as one of the three names.
pub proof fn document_textures_keep_their_settings(texture: CoreTexture)
    ensures
        core_texture(texture).path == texture.resolved_path@,
        core_texture(texture).u_address_mode == texture.u_address_mode@,
        core_texture(texture).v_address_mode == texture.v_address_mode@,
        core_texture(texture).filter_type == texture.filter_type@,
        texture.authored_colorspace is None ==> !core_texture(texture).is_srgb,
        texture.authored_colorspace matches Some(c) ==> (core_texture(texture).is_srgb
            <==> same_ignoring_case(c@, "srgb"@) || same_ignoring_case(c@, "srgb_texture"@)
            || same_ignoring_case(c@, "srgbtexture"@)),
{
}

/// An adapted document is the compiled one under the bound material's path.
pub proof fn adapted_documents_keep_their_parts(core: CoreMaterial, path: Seq<char>)
    ensures
        adapted_material(core, path) matches Ok(c) ==> {
            &&& c.material == path
            &&& c.wesl == core.wesl@
            &&& core_slots(core.uniforms@, path, core.uniforms@.len()) == Ok::<
                Seq<SlotView>,
                DiagnosticView,
            >(c.uniforms)
            &&& c.textures.len() == core.textures@.len()
            &&& forall|i: int|
                0 <= i < core.textures@.len() ==> (#[trigger] c.textures[i]) == core_texture(
                    core.textures@[i],
                )
            &&& c.alpha_blend == core.blends
            &&& c.transmission == core.transmission
            &&& c.required_modules == views(core.required_modules@)
            &&& c.diagnostics == all_adapted(core.diagnostics@, path)
        },
        adapted_material(core, path) matches Err(list) ==> list.len() == 1,
{
}

/// A file is a MaterialX document by its extension, in any case.
pub proof fn documents_are_known_by_extension(path: Seq<char>)
    ensures
        file_extension(path) is None ==> !is_materialx(path),
        file_extension(path) matches Some(extension) ==> (is_materialx(path)
            <==> same_ignoring_case(extension, "mtlx"@)),
{
}

/// Adding a document keeps those that were there, and afterwards the list has
/// a path of the same file; nothing else is added.
pub proof fn added_documents_are_listed(list: Seq<Seq<char>>, document: Seq<char>)
    requires
        same_path(document, document),
    ensures
        list.is_prefix_of(with_document(list, document)),
        exists|i: int|
            0 <= i < with_document(list, document).len() && same_path(
                #[trigger] with_document(list, document)[i],
                document,
            ),
        (exists|i: int| 0 <= i < list.len() && same_path(#[trigger] list[i], document))
            ==> with_document(list, document) == list,
        with_document(list, document).len() <= list.len() + 1,
{
    let out = with_document(list, document);
    if exists|i: int| 0 <= i < list.len() && same_path(#[trigger] list[i], document) {
        let i = choose|i: int| 0 <= i < list.len() && same_path(#[trigger] list[i], document);
        assert(same_path(out[i], document));
    } else {
        assert(same_path(out[list.len() as int], document));
    }
    assert(list =~= out.subrange(0, list.len() as int));
}

/// The listed documents are those that the references to MaterialX files lead
/// to, from the layer that holds them; other references lead nowhere.
pub proof fn listed_documents_are_referenced(
    list: Seq<Seq<char>>,
    layer: Seq<char>,
    references: Seq<Seq<char>>,
    count: nat,
    document: Seq<char>,
)
    requires
        count <= references.len(),
        with_references(list, layer, references, count).contains(document),
    ensures
        list.contains(document) || exists|k: int|
            0 <= k < count && is_materialx(#[trigger] references[k]) && document == resolved(
                layer,
                references[k],
            ),
    decreases count,
{
    if count > 0 {
        let last = (count - 1) as nat;
        let sofar = with_references(list, layer, references, last);
        if is_materialx(references[last as int]) {
            pushed_members(sofar, resolved(layer, references[last as int]), document);
        }
        if sofar.contains(document) {
            listed_documents_are_referenced(list, layer, references, last, document);
        }
    }
}

/// A scope has the one document that its specs reference. With none it has no
/// document, with several there is no telling which, and a stack or reference
/// list that cannot be read is an error at the scope.
pub proof fn scopes_have_one_document(
    sites: Seq<PrimSite>,
    material: Seq<char>,
    path: Seq<char>,
)
    ensures
        find_site(sites, path) is None ==> scope_document(sites, material, path) == Ok::<
            Option<Seq<char>>,
            DiagnosticView,
        >(None),
        find_site(sites, path) matches Some(site) ==> {
            &&& site.stack is Err ==> (scope_document(sites, material, path) matches Err(d)
                && d.material == material && d.node == Some(path))
            &&& site.stack matches Ok(stack) ==> (match documents(
                material,
                path,
                stack@,
                stack@.len(),
            ) {
                Err(d) => scope_document(sites, material, path) == Err::<
                    Option<Seq<char>>,
                    DiagnosticView,
                >(d),
                Ok(list) => {
                    &&& list.len() == 0 ==> scope_document(sites, material, path) == Ok::<
                        Option<Seq<char>>,
                        DiagnosticView,
                    >(None)
                    &&& list.len() == 1 ==> scope_document(sites, material, path) == Ok::<
                        Option<Seq<char>>,
                        DiagnosticView,
                    >(Some(list[0]))
                    &&& list.len() > 1 ==> (scope_document(sites, material, path) matches Err(d)
                        && d.code == DiagnosticCode::AmbiguousMaterial && d.node == Some(path))
                },
            })
        },
{
}

/// The document of a material is that of the nearest scope: its own where it
/// has one, else that of the prim above; an error at the nearest scope that has
/// one is reported, and nothing above it is looked at.
pub proof fn the_nearest_document_is_taken(
    sites: Seq<PrimSite>,
    material: Seq<char>,
    path: Seq<char>,
)
    ensures
        scope_document(sites, material, path) matches Ok(Some(document)) ==> nearest_document(
            sites,
            material,
            path,
        ) == Ok::<Option<(Seq<char>, Seq<char>)>, DiagnosticView>(Some((path, document))),
        scope_document(sites, material, path) matches Err(d) ==> nearest_document(
            sites,
            material,
            path,
        ) == Err::<Option<(Seq<char>, Seq<char>)>, DiagnosticView>(d),
        scope_document(sites, material, path) == Ok::<Option<Seq<char>>, DiagnosticView>(None)
            && parent_path(path) is None ==> nearest_document(sites, material, path) == Ok::<
            Option<(Seq<char>, Seq<char>)>,
            DiagnosticView,
        >(None),
        scope_document(sites, material, path) == Ok::<Option<Seq<char>>, DiagnosticView>(None) && (
        parent_path(path) matches Some(above) && above.len() < path.len()) ==> nearest_document(
            sites,
            material,
            path,
        ) == nearest_document(sites, material, parent_path(path)->0),
{
}

/// A document that is found is one of a scope at or above the material, and is
/// the document of that very scope.
pub proof fn found_documents_belong_to_their_scope(
    sites: Seq<PrimSite>,
    material: Seq<char>,
    path: Seq<char>,
)
    ensures
        nearest_document(sites, material, path) matches Ok(Some((scope, document))) ==> scope.len()
            <= path.len() && scope_document(sites, material, scope) == Ok::<
            Option<Seq<char>>,
            DiagnosticView,
        >(Some(document)),
    decreases path.len(),
{
    if scope_document(sites, material, path) == Ok::<Option<Seq<char>>, DiagnosticView>(None) {
        if let Some(above) = parent_path(path) {
            if above.len() < path.len() {
                found_documents_belong_to_their_scope(sites, material, above);
            }
        }
    }
}

/// The first site with the path is found, and none only where no site has it.
pub proof fn the_first_site_is_found(sites: Seq<PrimSite>, path: Seq<char>)
    ensures
        find_site(sites, path) matches Some(site) ==> site.path@ == path && exists|k: int|
            0 <= k < sites.len() && #[trigger] sites[k] == site && forall|j: int|
                0 <= j < k ==> (#[trigger] sites[j]).path@ != path,
        find_site(sites, path) is None ==> forall|k: int|
            0 <= k < sites.len() ==> (#[trigger] sites[k]).path@ != path,
    decreases sites.len(),
{
    if sites.len() > 0 {
        let rest = sites.skip(1);
        the_first_site_is_found(rest, path);
        if sites[0].path@ != path {
            if let Some(site) = find_site(rest, path) {
                let k = choose|k: int|
                    0 <= k < rest.len() && #[trigger] rest[k] == site && forall|j: int|
                        0 <= j < k ==> (#[trigger] rest[j]).path@ != path;
                assert(sites[k + 1] == site);
                assert forall|j: int| 0 <= j < k + 1 implies (#[trigger] sites[j]).path@ != path by {
                    if j > 0 {
                        assert(rest[j - 1] == sites[j]);
                    }
                }
            } else {
                assert forall|k: int| 0 <= k < sites.len() implies (#[trigger] sites[k]).path@
                    != path by {
                    if k > 0 {
                        assert(rest[k - 1] == sites[k]);
                    }
                }
            }
        } else {
            assert(sites[0] == find_site(sites, path)->0);
        }
    }
}

/// A reference that was found names its document and material where the
/// document exists; where it does not, the missing document is the error.
pub proof fn missing_documents_are_reported(
    material: Seq<char>,
    found: (Seq<char>, Seq<char>, Seq<char>),
)
    ensures
        confirmed(material, found, true) == Ok::<Option<(Seq<char>, Seq<char>)>, DiagnosticView>(
            Some((found.1, found.2)),
        ),
        confirmed(material, found, false) matches Err(d) && d.code == DiagnosticCode::MissingAsset
            && d.material == material && d.node == Some(found.0) && d.property == Some(found.1),
{
}

/// A document is parsed from what the host's reader returned. Only without a
/// reader, or where it failed on an existing file, is the file itself loaded;
/// bytes that are no text and a file that is nowhere are errors.
pub proof fn documents_are_read_where_they_can_be(
    document: Seq<char>,
    material: Seq<char>,
    bytes: Vec<u8>,
    error: String,
    is_file: bool,
)
    ensures
        planned(document, material, None, is_file) == Ok::<Option<Seq<char>>, DiagnosticView>(None),
        vstd::utf8::valid_utf8(bytes@) ==> planned(document, material, Some(Ok(bytes)), is_file)
            == Ok::<Option<Seq<char>>, DiagnosticView>(Some(vstd::utf8::decode_utf8(bytes@))),
        !vstd::utf8::valid_utf8(bytes@) ==> (planned(
            document,
            material,
            Some(Ok(bytes)),
            is_file,
        ) matches Err(d) && d.code == DiagnosticCode::InvalidDocument && d.property == Some(
            document,
        ) && d.material == material),
        planned(document, material, Some(Err(error)), true) == Ok::<
            Option<Seq<char>>,
            DiagnosticView,
        >(None),
        planned(document, material, Some(Err(error)), false) matches Err(d) && d.code
            == DiagnosticCode::MissingAsset && d.property == Some(document) && d.material
            == material,
{
}

/// A bound material has a name and comes from the nearest document; a path
/// without a name is a missing material.
pub proof fn bound_materials_are_looked_for_by_name(sites: Seq<PrimSite>, material: Seq<char>)
    ensures
        leaf_name(material) is None ==> (external_reference(sites, material) matches Err(d)
            && d.code == DiagnosticCode::MissingMaterial && d.material == material),
        leaf_name(material) matches Some(name) ==> (match nearest_document(
            sites,
            material,
            material,
        ) {
            Err(d) => external_reference(sites, material) == Err::<
                Option<(Seq<char>, Seq<char>, Seq<char>)>,
                DiagnosticView,
            >(d),
            Ok(None) => external_reference(sites, material) == Ok::<
                Option<(Seq<char>, Seq<char>, Seq<char>)>,
                DiagnosticView,
            >(None),
            Ok(Some((scope, document))) => external_reference(sites, material) == Ok::<
                Option<(Seq<char>, Seq<char>, Seq<char>)>,
                DiagnosticView,
            >(Some((scope, document, name))),
        }),
{
}

/// What the search and the plan say is what they return.
pub proof fn results_are_seen_as_they_are(
    source: ExternalMaterialXSource,
    d: MaterialXDiagnostic,
    text: String,
)
    ensures
        source_result(Ok(Some(source))) == Ok::<Option<(Seq<char>, Seq<char>)>, DiagnosticView>(
            Some((source.document@, source.material_name@)),
        ),
        source_result(Ok(None)) == Ok::<Option<(Seq<char>, Seq<char>)>, DiagnosticView>(None),
        source_result(Err(d)) == Err::<Option<(Seq<char>, Seq<char>)>, DiagnosticView>(d@),
        plan_result(Ok(DocumentPlan::Parse(text))) == Ok::<Option<Seq<char>>, DiagnosticView>(
            Some(text@),
        ),
        plan_result(Ok(DocumentPlan::Load)) == Ok::<Option<Seq<char>>, DiagnosticView>(None),
        plan_result(Err(d)) == Err::<Option<Seq<char>>, DiagnosticView>(d@),
{
}

/// The documents of a scope are read layer by layer, strongest first; a layer
/// without references adds none, and a list that cannot be read is an error.
pub proof fn scopes_read_every_layer(
    material: Seq<char>,
    path: Seq<char>,
    stack: Seq<LayerSpec>,
    count: nat,
)
    requires
        0 < count <= stack.len(),
        documents(material, path, stack, (count - 1) as nat) is Ok,
    ensures
        ({
            let sofar = documents(material, path, stack, (count - 1) as nat)->Ok_0;
            let layer = stack[count - 1];
            &&& layer.references matches Ok(None) ==> documents(material, path, stack, count)
                == Ok::<Seq<Seq<char>>, DiagnosticView>(sofar)
            &&& layer.references matches Ok(Some(list)) ==> documents(
                material,
                path,
                stack,
                count,
            ) == Ok::<Seq<Seq<char>>, DiagnosticView>(
                with_references(sofar, layer.layer@, views(list@), list@.len()),
            )
            &&& layer.references is Err ==> (documents(material, path, stack, count) matches Err(d)
                && d.code == DiagnosticCode::InvalidConnection && d.node == Some(path)
                && d.material == material && d.property == Some("references"@))
        }),
        documents(material, path, stack, 0) matches Ok(none) && none.len() == 0,
{
}

/// Every reference to a MaterialX document is listed, unless its file is listed
/// already.
pub proof fn referenced_documents_are_listed(
    list: Seq<Seq<char>>,
    layer: Seq<char>,
    references: Seq<Seq<char>>,
    count: nat,
    k: int,
)
    requires
        0 <= k < count <= references.len(),
        is_materialx(references[k]),
    ensures
        exists|i: int|
            0 <= i < with_references(list, layer, references, count).len() && same_path(
                #[trigger] with_references(list, layer, references, count)[i],
                resolved(layer, references[k]),
            ),
    decreases count,
{
    let last = (count - 1) as nat;
    let sofar = with_references(list, layer, references, last);
    let all = with_references(list, layer, references, count);
    let document = resolved(layer, references[last as int]);
    same_paths_have_the_same_components(document, document);
    if is_materialx(references[last as int]) {
        added_documents_are_listed(sofar, document);
    }
    if k < last {
        referenced_documents_are_listed(list, layer, references, last, k);
        let i = choose|i: int|
            0 <= i < sofar.len() && same_path(
                #[trigger] sofar[i],
                resolved(layer, references[k]),
            );
        assert(all[i] == sofar[i]);
    }
}

/// Messages tell what went wrong in the words of the problem: an unreadable
/// stack or reference list, several documents, a missing name, a missing
/// document, and a document that is no text or cannot be read.
pub proof fn document_messages_tell_the_problem(
    material: Seq<char>,
    path: Seq<char>,
    document: Seq<char>,
    bytes: Vec<u8>,
    error: String,
    place: CoreLocation,
    text: Seq<char>,
)
    ensures
        missing_document(material, path, document).message
            == "referenced MaterialX document does not exist"@,
        !vstd::utf8::valid_utf8(bytes@) ==> (planned(
            document,
            material,
            Some(Ok(bytes)),
            false,
        ) matches Err(d) && d.message == "MaterialX document is not UTF-8: "@ + utf8_problem(
            bytes@,
        )),
        planned(document, material, Some(Err(error)), false) matches Err(d) && d.message
            == "cannot read MaterialX document: "@ + error@,
        place.document is None ==> located_message(text, Some(place)) == text + " ("@
            + "<MaterialX>"@ + ":"@ + decimal(place.line as nat) + ":"@ + decimal(
            place.column as nat,
        ) + ")"@,
{
}

/// The message of a scope tells the number of its documents, or the error of
/// reading its stack.
pub proof fn scope_messages_tell_the_problem(
    sites: Seq<PrimSite>,
    material: Seq<char>,
    path: Seq<char>,
    site: PrimSite,
)
    requires
        find_site(sites, path) == Some(site),
    ensures
        site.stack matches Err(e) ==> (scope_document(sites, material, path) matches Err(d)
            && d.message == "cannot inspect the USD prim stack: "@ + e@),
        site.stack matches Ok(stack) ==> (documents(
            material,
            path,
            stack@,
            stack@.len(),
        ) matches Ok(list) ==> (list.len() > 1 ==> (scope_document(
            sites,
            material,
            path,
        ) matches Err(d) && d.message == decimal(list.len())
            + " MaterialX documents contribute at the same USD scope"@))),
{
}

} // verus!
