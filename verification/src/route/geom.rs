//! Geometry routes: whether a prim is drawn, and when its mesh is built again.

use crate::path::{braces_open_first, parent, parent_path};
use crate::read::util::{as_text, text_at};
use crate::stage::Stage;
use crate::text::{copy, starts_with, str_eq, views};
use vstd::prelude::*;

verus! {

/// Which purposes are drawn besides the default one.
#[derive(Debug, Clone, Copy, PartialEq, Eq, Structural)]
pub struct DisplayPurposes {
    pub render: bool,
    pub proxy: bool,
    pub guide: bool,
}

impl Default for DisplayPurposes {
    /// Proxies are drawn; their render twins and guides are not.
    fn default() -> (r: Self)
        ensures
            r == (DisplayPurposes { render: false, proxy: true, guide: false }),
    {
        DisplayPurposes { render: false, proxy: true, guide: false }
    }
}

impl DisplayPurposes {
    /// The purpose is drawn.
    pub open spec fn draws(self, purpose: Seq<char>) -> bool {
        if purpose == "render"@ {
            self.render
        } else if purpose == "proxy"@ {
            self.proxy
        } else if purpose == "guide"@ {
            self.guide
        } else {
            true
        }
    }

    /// Whether the purpose is drawn.
    pub fn shows(&self, purpose: &str) -> (r: bool)
        ensures
            r == self.draws(purpose@),
    {
        if str_eq(purpose, "render") {
            self.render
        } else if str_eq(purpose, "proxy") {
            self.proxy
        } else if str_eq(purpose, "guide") {
            self.guide
        } else {
            true
        }
    }
}

/// The purpose of the nearest prim at or above `path` that authors one, and
/// the default purpose without one or where one cannot be read.
pub open spec fn effective_purpose(stage: Stage, path: Seq<char>) -> Seq<char>
    decreases path.len(),
{
    match stage.default_value(path, "purpose"@) {
        Err(_) => "default"@,
        Ok(_) => match as_text(stage.value_of(path, "purpose"@)) {
            Some(purpose) => purpose,
            None => match parent_path(path) {
                Some(above) => if above.len() < path.len() {
                    effective_purpose(stage, above)
                } else {
                    "default"@
                },
                None => "default"@,
            },
        },
    }
}

proof fn parents_keep_braces(path: Seq<char>, above: Seq<char>)
    requires
        braces_open_first(path),
        above.is_prefix_of(path),
    ensures
        braces_open_first(above),
{
    assert forall|i: int| 0 <= i < above.len() && #[trigger] above[i] == '}' implies above.take(
        i,
    ).contains('{') by {
        assert(path[i] == '}');
        assert(above.take(i) =~= path.take(i));
    }
}

/// The purpose that a prim inherits down the namespace.
pub fn read_effective_purpose(stage: &Stage, path: &str) -> (r: String)
    requires
        braces_open_first(path@),
    ensures
        r@ == effective_purpose(*stage, path@),
    decreases path@.len(),
{
    if let Some(found) = stage.attribute(path, "purpose") {
        if let Err(_) = &found.at_default {
            return copy("default");
        }
    }
    match text_at(stage, path, "purpose") {
        Some(purpose) => purpose,
        None => match parent(path) {
            Some(above) => {
                proof {
                    if path@.len() > 0 && path@.last() == '}' {
                        assert(path@[path@.len() - 1] == '}');
                        let head = path@.take(path@.len() - 1);
                        assert(head.contains('{'));
                        let k = choose|k: int| 0 <= k < head.len() && head[k] == '{';
                        assert(path@[k] == '{');
                    }
                    parents_keep_braces(path@, above@);
                }
                read_effective_purpose(stage, above.as_str())
            },
            None => copy("default"),
        },
    }
}

/// The prim is authored invisible.
pub open spec fn authored_invisible(stage: Stage, path: Seq<char>) -> bool {
    as_text(stage.value_of(path, "visibility"@)) == Some("invisible"@)
}

/// The prim is not drawn: it is authored invisible, or its purpose is not
/// drawn.
pub open spec fn undrawn(stage: Stage, path: Seq<char>, purposes: DisplayPurposes) -> bool {
    authored_invisible(stage, path) || !purposes.draws(effective_purpose(stage, path))
}

/// Whether the prim is authored invisible.
pub fn read_visibility(stage: &Stage, path: &str) -> (r: bool)
    ensures
        r == authored_invisible(*stage, path@),
{
    match text_at(stage, path, "visibility") {
        Some(token) => str_eq(token.as_str(), "invisible"),
        None => false,
    }
}

/// Whether a prim is hidden, and its effective purpose. Source data of a point
/// instancer is always hidden.
pub fn resolve(
    stage: &Stage,
    path: &str,
    purposes: DisplayPurposes,
    prototype_source: bool,
) -> (r: (bool, String))
    requires
        braces_open_first(path@),
    ensures
        r.0 == (prototype_source || undrawn(*stage, path@, purposes)),
        r.1@ == effective_purpose(*stage, path@),
{
    let purpose = read_effective_purpose(stage, path);
    let hidden = prototype_source || read_visibility(stage, path) || !purposes.shows(
        purpose.as_str(),
    );
    (hidden, purpose)
}

/// Whether an attached mesh changes what is drawn for the prim.
#[derive(Debug, Clone, Copy, PartialEq, Eq, Structural)]
pub enum MeshStep {
    /// The mesh belongs to an instancer: take away what is attached.
    Detach,
    /// The prim has no mesh.
    Skip,
    /// Nothing can hold a mesh.
    Unavailable,
    /// Build and attach the mesh.
    Attach,
}

/// What the mesh route does for a prim.
pub fn attach(prototype_source: bool, has_mesh: bool, has_assets: bool) -> (r: MeshStep)
    ensures
        r == (if prototype_source {
            MeshStep::Detach
        } else if !has_mesh {
            MeshStep::Skip
        } else if !has_assets {
            MeshStep::Unavailable
        } else {
            MeshStep::Attach
        }),
{
    if prototype_source {
        MeshStep::Detach
    } else if !has_mesh {
        MeshStep::Skip
    } else if !has_assets {
        MeshStep::Unavailable
    } else {
        MeshStep::Attach
    }
}

/// Whether the mesh route takes a prim: by its type, or because it has a mesh.
pub fn is_mesh_prim(prim_type: &Option<String>, has_mesh: bool) -> (r: bool)
    ensures
        r == (crate::text::opt_view(*prim_type) == Some("Mesh"@) || has_mesh),
{
    match prim_type {
        Some(t) => str_eq(t.as_str(), "Mesh") || has_mesh,
        None => has_mesh,
    }
}

/// The property decides whether a prim is drawn.
pub open spec fn decides_visibility(name: Seq<char>) -> bool {
    name == "visibility"@ || name == "purpose"@
}

/// The property is an input of the mesh conversion.
pub open spec fn decides_geometry(name: Seq<char>) -> bool {
    ||| name == "points"@
    ||| name == "faceVertexCounts"@
    ||| name == "faceVertexIndices"@
    ||| name == "normals"@
    ||| name == "orientation"@
    ||| name == "subdivisionScheme"@
    ||| name == "doubleSided"@
    ||| "primvars:"@.is_prefix_of(name)
}

/// Whether visibility is resolved again after these properties changed; an
/// empty list means that anything may have.
pub fn touches_visibility(changed: &Vec<String>) -> (r: bool)
    ensures
        r == (changed@.len() == 0 || exists|i: int|
            0 <= i < changed@.len() && decides_visibility(#[trigger] views(changed@)[i])),
{
    if changed.len() == 0 {
        return true;
    }
    for i in 0..changed.len()
        invariant
            forall|k: int| 0 <= k < i ==> !decides_visibility(#[trigger] views(changed@)[k]),
    {
        let name = changed[i].as_str();
        assert(views(changed@)[i as int] == name@);
        if str_eq(name, "visibility") || str_eq(name, "purpose") {
            return true;
        }
    }
    false
}

/// Whether the mesh is built again after these properties changed; an empty
/// list means that anything may have.
pub fn touches_geometry(changed: &Vec<String>) -> (r: bool)
    ensures
        r == (changed@.len() == 0 || exists|i: int|
            0 <= i < changed@.len() && decides_geometry(#[trigger] views(changed@)[i])),
{
    if changed.len() == 0 {
        return true;
    }
    for i in 0..changed.len()
        invariant
            forall|k: int| 0 <= k < i ==> !decides_geometry(#[trigger] views(changed@)[k]),
    {
        let name = changed[i].as_str();
        assert(views(changed@)[i as int] == name@);
        if str_eq(name, "points") || str_eq(name, "faceVertexCounts") || str_eq(
            name,
            "faceVertexIndices",
        ) || str_eq(name, "normals") || str_eq(name, "orientation") || str_eq(
            name,
            "subdivisionScheme",
        ) || str_eq(name, "doubleSided") || starts_with(name, "primvars:") {
            return true;
        }
    }
    false
}

/// A change that only decides whether a prim is drawn, such as one of its
/// purpose, never rebuilds a mesh.
pub proof fn visibility_changes_keep_meshes(name: Seq<char>)
    requires
        decides_visibility(name),
    ensures
        !decides_geometry(name),
{
    reveal_strlit("purpose");
    reveal_strlit("visibility");
    reveal_strlit("points");
    reveal_strlit("faceVertexCounts");
    reveal_strlit("faceVertexIndices");
    reveal_strlit("normals");
    reveal_strlit("orientation");
    reveal_strlit("subdivisionScheme");
    reveal_strlit("doubleSided");
    reveal_strlit("primvars:");
    assert(name.len() == 7 || name.len() == 10);
    assert(name.len() == 7 ==> name[0] == 'p');
    assert(name.len() == 10 ==> name[0] == 'v');
    assert("normals"@[0] == 'n');
    if "primvars:"@.is_prefix_of(name) {
        assert(name.subrange(0, 9)[0] == "primvars:"@[0]);
    }
}

} // verus!
