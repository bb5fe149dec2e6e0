//! `UsdProc`: procedural prim metadata.

use super::util::{as_text, first_error, first_problem, probe_views, text_at};
use crate::stage::Stage;
use crate::text::opt_view;
use vstd::prelude::*;

verus! {

#[derive(Debug, Clone)]
pub struct ReadProcedural {
    pub procedural_type: Option<String>,
    pub procedural_system: Option<String>,
}

/// The procedural metadata at `prim`; `None` where neither part is authored.
pub fn read_procedural(stage: &Stage, prim: &str) -> (r: Result<Option<ReadProcedural>, String>)
    ensures
        ({
            let kind = as_text(stage.value_of(prim@, "info:procedural:type"@));
            let system = as_text(stage.value_of(prim@, "proceduralSystem"@));
            match first_problem(
                *stage,
                prim@,
                seq![(false, "info:procedural:type"@), (false, "proceduralSystem"@)],
            ) {
                Some(e) => r matches Err(text) && text@ == e,
                None => if kind is None && system is None {
                    r == Ok::<Option<ReadProcedural>, String>(None)
                } else {
                    r matches Ok(Some(p)) && opt_view(p.procedural_type) == kind && opt_view(
                        p.procedural_system,
                    ) == system
                },
            }
        }),
{
    let properties = vec![(false, "info:procedural:type"), (false, "proceduralSystem")];
    assert(probe_views(properties@) =~= seq![
        (false, "info:procedural:type"@),
        (false, "proceduralSystem"@),
    ]);
    if let Some(e) = first_error(stage, prim, &properties) {
        return Err(e);
    }
    let procedural_type = text_at(stage, prim, "info:procedural:type");
    let procedural_system = text_at(stage, prim, "proceduralSystem");
    if procedural_type.is_none() && procedural_system.is_none() {
        return Ok(None);
    }
    Ok(Some(ReadProcedural { procedural_type, procedural_system }))
}

} // verus!
