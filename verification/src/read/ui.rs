//! `UsdUI`: cosmetic outliner and editor metadata.

use super::util::{as_text, read_token_or_string, text_outcome};
use crate::stage::Stage;
use vstd::prelude::*;

verus! {

/// `ui:displayName`: friendly label for the prim tree.
pub fn read_display_name(stage: &Stage, prim: &str) -> (r: Result<Option<String>, String>)
    ensures
        text_outcome(
            *stage,
            prim@,
            "ui:displayName"@,
            r,
            as_text(stage.value_of(prim@, "ui:displayName"@)),
        ),
{
    read_token_or_string(stage, prim, "ui:displayName")
}

/// `ui:displayGroup`: grouping token.
pub fn read_display_group(stage: &Stage, prim: &str) -> (r: Result<Option<String>, String>)
    ensures
        text_outcome(
            *stage,
            prim@,
            "ui:displayGroup"@,
            r,
            as_text(stage.value_of(prim@, "ui:displayGroup"@)),
        ),
{
    read_token_or_string(stage, prim, "ui:displayGroup")
}

} // verus!
