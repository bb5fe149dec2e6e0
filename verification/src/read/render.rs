//! `UsdRender` read side: `RenderSettings`, `RenderProduct`, `RenderVar`.

use super::util::{
    as_asset, as_int_pair, as_number, as_text, as_texts, asset_at, first_error, first_of,
    first_problem, first_target_at, has_type, int_pair_at, number_at, probe_views, targets_at,
    targets_of, text_at, texts_at,
};
use crate::stage::{Scalar, Stage};
use crate::text::{copy, opt_view, views};
use vstd::prelude::*;

verus! {

#[derive(Debug)]
pub struct ReadRenderSettings {
    pub path: String,
    pub resolution: Option<(i32, i32)>,
    pub pixel_aspect_ratio: Option<Scalar>,
    pub aspect_ratio_conform_policy: Option<String>,
    pub products: Vec<String>,
    pub included_purposes: Vec<String>,
    pub material_binding_purposes: Vec<String>,
}

#[derive(Debug, Clone)]
pub struct ReadRenderProduct {
    pub path: String,
    pub product_type: Option<String>,
    pub product_name: Option<String>,
    pub camera: Option<String>,
    pub ordered_vars: Vec<String>,
}

#[derive(Debug, Clone)]
pub struct ReadRenderVar {
    pub path: String,
    pub data_type: Option<String>,
    pub source_name: Option<String>,
    pub source_type: Option<String>,
}

/// The properties of render settings, in the order they are read.
pub open spec fn settings_properties() -> Seq<(bool, Seq<char>)> {
    seq![
        (false, "resolution"@),
        (false, "pixelAspectRatio"@),
        (false, "aspectRatioConformPolicy"@),
        (true, "products"@),
        (false, "includedPurposes"@),
        (false, "materialBindingPurposes"@),
    ]
}

/// The record holds what the properties decode to.
pub open spec fn settings_decode(stage: Stage, prim: Seq<char>, s: ReadRenderSettings) -> bool {
    &&& s.path@ == prim
    &&& s.resolution == as_int_pair(stage.value_of(prim, "resolution"@))
    &&& s.pixel_aspect_ratio == as_number(stage.value_of(prim, "pixelAspectRatio"@))
    &&& opt_view(s.aspect_ratio_conform_policy) == as_text(
        stage.value_of(prim, "aspectRatioConformPolicy"@),
    )
    &&& views(s.products@) == targets_of(stage, prim, "products"@)
    &&& views(s.included_purposes@) == as_texts(stage.value_of(prim, "includedPurposes"@))
    &&& views(s.material_binding_purposes@) == as_texts(
        stage.value_of(prim, "materialBindingPurposes"@),
    )
}

/// The render settings at `prim`; `None` for a prim of another type.
pub fn read_render_settings(stage: &Stage, prim: &str) -> (r: Result<
    Option<ReadRenderSettings>,
    String,
>)
    ensures
        match stage.type_of(prim@) {
            Err(e) => r matches Err(text) && text@ == e,
            Ok(kind) => if kind != Some("RenderSettings"@) {
                r == Ok::<Option<ReadRenderSettings>, String>(None)
            } else {
                match first_problem(*stage, prim@, settings_properties()) {
                    Some(e) => r matches Err(text) && text@ == e,
                    None => r matches Ok(Some(s)) && settings_decode(*stage, prim@, s),
                }
            },
        },
{
    match has_type(stage, prim, "RenderSettings") {
        Err(e) => return Err(e),
        Ok(false) => return Ok(None),
        Ok(true) => {},
    }
    let properties = vec![
        (false, "resolution"),
        (false, "pixelAspectRatio"),
        (false, "aspectRatioConformPolicy"),
        (true, "products"),
        (false, "includedPurposes"),
        (false, "materialBindingPurposes"),
    ];
    assert(probe_views(properties@) =~= settings_properties());
    if let Some(e) = first_error(stage, prim, &properties) {
        return Err(e);
    }
    Ok(
        Some(
            ReadRenderSettings {
                path: copy(prim),
                resolution: int_pair_at(stage, prim, "resolution"),
                pixel_aspect_ratio: number_at(stage, prim, "pixelAspectRatio"),
                aspect_ratio_conform_policy: text_at(stage, prim, "aspectRatioConformPolicy"),
                products: targets_at(stage, prim, "products"),
                included_purposes: texts_at(stage, prim, "includedPurposes"),
                material_binding_purposes: texts_at(stage, prim, "materialBindingPurposes"),
            },
        ),
    )
}

/// The properties of a render product, in the order they are read.
pub open spec fn product_properties() -> Seq<(bool, Seq<char>)> {
    seq![
        (false, "productType"@),
        (false, "productName"@),
        (true, "camera"@),
        (true, "orderedVars"@),
    ]
}

/// The record holds what the properties decode to.
pub open spec fn product_decodes(stage: Stage, prim: Seq<char>, p: ReadRenderProduct) -> bool {
    &&& p.path@ == prim
    &&& opt_view(p.product_type) == as_text(stage.value_of(prim, "productType"@))
    &&& opt_view(p.product_name) == as_asset(stage.value_of(prim, "productName"@))
    &&& opt_view(p.camera) == first_of(targets_of(stage, prim, "camera"@))
    &&& views(p.ordered_vars@) == targets_of(stage, prim, "orderedVars"@)
}

/// The render product at `prim`; `None` for a prim of another type.
pub fn read_render_product(stage: &Stage, prim: &str) -> (r: Result<
    Option<ReadRenderProduct>,
    String,
>)
    ensures
        match stage.type_of(prim@) {
            Err(e) => r matches Err(text) && text@ == e,
            Ok(kind) => if kind != Some("RenderProduct"@) {
                r == Ok::<Option<ReadRenderProduct>, String>(None)
            } else {
                match first_problem(*stage, prim@, product_properties()) {
                    Some(e) => r matches Err(text) && text@ == e,
                    None => r matches Ok(Some(p)) && product_decodes(*stage, prim@, p),
                }
            },
        },
{
    match has_type(stage, prim, "RenderProduct") {
        Err(e) => return Err(e),
        Ok(false) => return Ok(None),
        Ok(true) => {},
    }
    let properties = vec![
        (false, "productType"),
        (false, "productName"),
        (true, "camera"),
        (true, "orderedVars"),
    ];
    assert(probe_views(properties@) =~= product_properties());
    if let Some(e) = first_error(stage, prim, &properties) {
        return Err(e);
    }
    Ok(
        Some(
            ReadRenderProduct {
                path: copy(prim),
                product_type: text_at(stage, prim, "productType"),
                product_name: asset_at(stage, prim, "productName"),
                camera: first_target_at(stage, prim, "camera"),
                ordered_vars: targets_at(stage, prim, "orderedVars"),
            },
        ),
    )
}

/// The properties of a render variable, in the order they are read.
pub open spec fn var_properties() -> Seq<(bool, Seq<char>)> {
    seq![(false, "dataType"@), (false, "sourceName"@), (false, "sourceType"@)]
}

/// The record holds what the properties decode to.
pub open spec fn var_decodes(stage: Stage, prim: Seq<char>, v: ReadRenderVar) -> bool {
    &&& v.path@ == prim
    &&& opt_view(v.data_type) == as_text(stage.value_of(prim, "dataType"@))
    &&& opt_view(v.source_name) == as_asset(stage.value_of(prim, "sourceName"@))
    &&& opt_view(v.source_type) == as_text(stage.value_of(prim, "sourceType"@))
}

/// The render variable at `prim`; `None` for a prim of another type.
pub fn read_render_var(stage: &Stage, prim: &str) -> (r: Result<Option<ReadRenderVar>, String>)
    ensures
        match stage.type_of(prim@) {
            Err(e) => r matches Err(text) && text@ == e,
            Ok(kind) => if kind != Some("RenderVar"@) {
                r == Ok::<Option<ReadRenderVar>, String>(None)
            } else {
                match first_problem(*stage, prim@, var_properties()) {
                    Some(e) => r matches Err(text) && text@ == e,
                    None => r matches Ok(Some(v)) && var_decodes(*stage, prim@, v),
                }
            },
        },
{
    match has_type(stage, prim, "RenderVar") {
        Err(e) => return Err(e),
        Ok(false) => return Ok(None),
        Ok(true) => {},
    }
    let properties = vec![(false, "dataType"), (false, "sourceName"), (false, "sourceType")];
    assert(probe_views(properties@) =~= var_properties());
    if let Some(e) = first_error(stage, prim, &properties) {
        return Err(e);
    }
    Ok(
        Some(
            ReadRenderVar {
                path: copy(prim),
                data_type: text_at(stage, prim, "dataType"),
                source_name: asset_at(stage, prim, "sourceName"),
                source_type: text_at(stage, prim, "sourceType"),
            },
        ),
    )
}

} // verus!
