//! Variant switches that only change materials: which live meshes get new
//! materials, and when the scene has to be loaded again instead.

use crate::text::{str_eq, views};
use vstd::prelude::*;

verus! {

/// One variant switch: prim, variant set and option.
#[derive(Debug)]
pub struct VariantSwitch {
    pub prim_path: String,
    pub set_name: String,
    pub option: String,
}

/// A switch, as character sequences.
pub open spec fn switch_view(s: VariantSwitch) -> (Seq<char>, Seq<char>, Seq<char>) {
    (s.prim_path@, s.set_name@, s.option@)
}

/// What is known of one live mesh and of its prim in the recomposed stage.
/// `vertices` is the live vertex count and `points` the recomposed one, where
/// they can be read; `shaded` tells that a preview material is bound.
#[derive(Debug)]
pub struct MeshProbe {
    pub path: String,
    pub vertices: Option<usize>,
    pub points: Option<usize>,
    pub shaded: bool,
}

/// What a switch leads to.
#[derive(Debug)]
pub enum SwitchPlan {
    /// Give these meshes new materials, by place in the list of probes.
    Reassign(Vec<usize>),
    /// The geometry changed too: load the scene again.
    Reload,
}

/// The recomposed mesh has another number of points than the live one.
pub open spec fn geometry_differs(p: MeshProbe) -> bool {
    p.vertices is Some && p.points is Some && p.vertices->0 != p.points->0
}

/// Some mesh has other geometry.
pub open spec fn any_geometry_differs(probes: Seq<MeshProbe>) -> bool {
    exists|i: int| 0 <= i < probes.len() && geometry_differs(#[trigger] probes[i])
}

/// The places of the shaded meshes among the first `count`.
pub open spec fn shaded_places(probes: Seq<MeshProbe>, count: nat) -> Seq<usize>
    decreases count,
{
    if count == 0 {
        Seq::empty()
    } else {
        let rest = shaded_places(probes, (count - 1) as nat);
        if probes[count - 1].shaded {
            rest.push((count - 1) as usize)
        } else {
            rest
        }
    }
}

/// What a switch leads to: a reload where any mesh changed its geometry, else
/// new materials for the meshes that have one bound.
pub fn plan_switch(probes: &Vec<MeshProbe>) -> (r: SwitchPlan)
    ensures
        any_geometry_differs(probes@) ==> r == SwitchPlan::Reload,
        !any_geometry_differs(probes@) ==> (r matches SwitchPlan::Reassign(list) && list@
            == shaded_places(probes@, probes@.len())),
{
    let mut out: Vec<usize> = Vec::new();
    for i in 0..probes.len()
        invariant
            out@ == shaded_places(probes@, i as nat),
            forall|k: int| 0 <= k < i ==> !geometry_differs(#[trigger] probes@[k]),
    {
        let probe = &probes[i];
        if let Some(live) = probe.vertices {
            if let Some(read) = probe.points {
                if live != read {
                    assert(geometry_differs(probes@[i as int]));
                    return SwitchPlan::Reload;
                }
            }
        }
        if probe.shaded {
            out.push(i);
        }
    }
    SwitchPlan::Reassign(out)
}

/// The last place of `path` in the list, if it is there.
pub open spec fn newest_for(paths: Seq<Seq<char>>, path: Seq<char>) -> Option<int>
    decreases paths.len(),
{
    if paths.len() == 0 {
        None
    } else if paths.last() == path {
        Some(paths.len() - 1)
    } else {
        newest_for(paths.drop_last(), path)
    }
}

/// Which of the new materials an entity takes: the last one for its path.
pub fn reassignment(paths: &Vec<String>, entity_path: &str) -> (r: Option<usize>)
    ensures
        match r {
            Some(i) => newest_for(views(paths@), entity_path@) == Some(i as int),
            None => newest_for(views(paths@), entity_path@) is None,
        },
{
    let ghost all = views(paths@);
    let mut i: usize = paths.len();
    assert(all.take(i as int) =~= all);
    while i > 0
        invariant
            i <= paths@.len(),
            all == views(paths@),
            newest_for(all, entity_path@) == newest_for(all.take(i as int), entity_path@),
        decreases i,
    {
        assert(all.take(i as int).last() == paths@[i - 1]@);
        assert(all.take(i as int).drop_last() =~= all.take(i - 1));
        if str_eq(paths[i - 1].as_str(), entity_path) {
            return Some(i - 1);
        }
        i = i - 1;
    }
    None
}

/// The materials of switches that were applied before, so that applying one
/// again needs no recomposition. `H` is a material handle.
#[derive(Debug)]
pub struct MaterialVariantCache<H> {
    entries: Vec<(VariantSwitch, Vec<(String, H)>)>,
}

/// The materials of the newest entry for `key`.
pub open spec fn find_switch<H>(
    entries: Seq<(VariantSwitch, Vec<(String, H)>)>,
    key: (Seq<char>, Seq<char>, Seq<char>),
) -> Option<Seq<(String, H)>>
    decreases entries.len(),
{
    if entries.len() == 0 {
        None
    } else if switch_view(entries.last().0) == key {
        Some(entries.last().1@)
    } else {
        find_switch(entries.drop_last(), key)
    }
}

impl<H> MaterialVariantCache<H> {
    /// The materials that are kept for a switch.
    pub closed spec fn lookup(self, key: (Seq<char>, Seq<char>, Seq<char>)) -> Option<
        Seq<(String, H)>,
    > {
        find_switch(self.entries@, key)
    }

    pub fn new() -> (r: Self)
        ensures
            forall|key: (Seq<char>, Seq<char>, Seq<char>)| (#[trigger] r.lookup(key)) is None,
    {
        MaterialVariantCache { entries: Vec::new() }
    }

    /// The materials that are kept for a switch.
    pub fn get(&self, switch: &VariantSwitch) -> (r: Option<&Vec<(String, H)>>)
        ensures
            match r {
                Some(list) => self.lookup(switch_view(*switch)) == Some(list@),
                None => self.lookup(switch_view(*switch)) is None,
            },
    {
        let ghost all = self.entries@;
        let ghost key = switch_view(*switch);
        let mut i: usize = self.entries.len();
        assert(all.take(i as int) =~= all);
        while i > 0
            invariant
                i <= self.entries@.len(),
                all == self.entries@,
                key == switch_view(*switch),
                find_switch(all, key) == find_switch(all.take(i as int), key),
            decreases i,
        {
            assert(all.take(i as int).last() == all[i - 1]);
            assert(all.take(i as int).drop_last() =~= all.take(i - 1));
            let entry = &self.entries[i - 1];
            if str_eq(entry.0.prim_path.as_str(), switch.prim_path.as_str()) && str_eq(
                entry.0.set_name.as_str(),
                switch.set_name.as_str(),
            ) && str_eq(entry.0.option.as_str(), switch.option.as_str()) {
                return Some(&self.entries[i - 1].1);
            }
            i = i - 1;
        }
        None
    }

    /// Keeps the materials of a switch.
    pub fn insert(&mut self, switch: VariantSwitch, materials: Vec<(String, H)>)
        ensures
            final(self).lookup(switch_view(switch)) == Some(materials@),
            forall|key: (Seq<char>, Seq<char>, Seq<char>)|
                key != switch_view(switch) ==> #[trigger] final(self).lookup(key) == old(
                    self).lookup(key),
    {
        let ghost before = self.entries@;
        self.entries.push((switch, materials));
        assert(self.entries@.drop_last() =~= before);
    }
}

} // verus!
