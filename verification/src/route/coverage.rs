//! Render, procedural and UI coverage routes: prims without a runtime
//! equivalent become typed markers that an app can discover.

use crate::read::util::{as_text, as_texts, text_at, texts_at};
use crate::stage::Stage;
use crate::text::{opt_view, str_eq, views};
use vstd::prelude::*;

verus! {

/// A `RenderSettings` prim: top-level render configuration.
#[derive(Debug, Clone)]
pub struct UsdRenderSettings {
    /// `includedPurposes` (e.g. `["default", "render"]`).
    pub included_purposes: Vec<String>,
    /// `renderingColorSpace` token, if authored.
    pub color_space: Option<String>,
}

/// A `GenerativeProcedural` prim: geometry produced by an evaluator.
#[derive(Debug, Clone)]
pub struct UsdProcedural {
    /// `proceduralSystem`: which evaluator owns this prim.
    pub system: Option<String>,
}

/// A `Backdrop` prim: a graph-editor annotation region.
#[derive(Debug, Clone)]
pub struct UsdBackdrop {
    /// `ui:description` free-text note.
    pub description: Option<String>,
}

/// The marker of a prim.
#[derive(Debug)]
pub enum Marker {
    RenderSettings(UsdRenderSettings),
    Procedural(UsdProcedural),
    Backdrop(UsdBackdrop),
}

/// The marker that a prim of this type gets.
pub open spec fn marks(stage: Stage, path: Seq<char>, prim_type: Seq<char>, r: Option<Marker>) -> bool {
    if prim_type == "RenderSettings"@ {
        r matches Some(Marker::RenderSettings(m)) && views(m.included_purposes@) == as_texts(
            stage.value_of(path, "includedPurposes"@),
        ) && opt_view(m.color_space) == as_text(stage.value_of(path, "renderingColorSpace"@))
    } else if prim_type == "GenerativeProcedural"@ {
        r matches Some(Marker::Procedural(m)) && opt_view(m.system) == as_text(
            stage.value_of(path, "proceduralSystem"@),
        )
    } else if prim_type == "Backdrop"@ {
        r matches Some(Marker::Backdrop(m)) && opt_view(m.description) == as_text(
            stage.value_of(path, "ui:description"@),
        )
    } else {
        r is None
    }
}

/// The marker of a prim; `None` for a prim of any other type.
pub fn marker_of(stage: &Stage, path: &str) -> (r: Option<Marker>)
    ensures
        match stage.type_of(path@) {
            Ok(Some(kind)) => marks(*stage, path@, kind, r),
            _ => r is None,
        },
{
    let kind = match stage.prim_type(path) {
        Ok(Some(t)) => t,
        _ => return None,
    };
    let name = kind.as_str();
    if str_eq(name, "RenderSettings") {
        Some(
            Marker::RenderSettings(
                UsdRenderSettings {
                    included_purposes: texts_at(stage, path, "includedPurposes"),
                    color_space: text_at(stage, path, "renderingColorSpace"),
                },
            ),
        )
    } else if str_eq(name, "GenerativeProcedural") {
        Some(
            Marker::Procedural(UsdProcedural { system: text_at(stage, path, "proceduralSystem") }),
        )
    } else if str_eq(name, "Backdrop") {
        Some(Marker::Backdrop(UsdBackdrop { description: text_at(stage, path, "ui:description") }))
    } else {
        None
    }
}

} // verus!
