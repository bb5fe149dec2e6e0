//! Value-clip introspection. Stages do not expose their clip sets yet, so none
//! are found.

use crate::stage::Stage;
use vstd::prelude::*;

verus! {

/// One clip set. Times are the bits of doubles.
#[derive(Debug)]
pub struct ReadClipSet {
    pub name: String,
    pub clip_prim_path: Option<String>,
    pub asset_paths: Vec<String>,
    pub active: Vec<(u64, i64)>,
    pub times: Vec<(u64, u64)>,
    pub manifest_asset_path: Option<String>,
}

/// The clip sets of a prim: none.
pub fn read_clips(stage: &Stage, prim: &str) -> (r: Result<Vec<ReadClipSet>, String>)
    ensures
        r matches Ok(list) && list@.len() == 0,
{
    Ok(Vec::new())
}

} // verus!
