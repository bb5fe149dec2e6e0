//! What the routes decide for a prim: how it is drawn, what it shows, and which
//! settings reach the renderer.

use super::cache::{
    converting, interned, joined, retained, still_waiting, PendingUsdMesh, PendingView,
};
use super::camera::{projection_plan, ProjectionPlan};
use super::coverage::{marks, Marker};
use super::geom::{
    decides_geometry, decides_visibility, effective_purpose, undrawn, DisplayPurposes,
};
use super::instancer::{
    below, children_have_less_slack, children_of, has_geometry, ids_of, instances_prototype,
    is_source, slack, subtree, used_prototypes, Instance, NodeView, PrototypeNode,
};
use super::material::{
    bound_graph, external_step, loadable, preview_color, MaterialXStep, PreviewColor,
};
use super::shapes::{axis_of, measure_of, shape_of, Axis, ShapePlan};
use super::signature::{MeshInputs, MeshPrimvar, ReadPreviewMaterial};
use crate::assoc::pushed_members;
use crate::live::is_under;
use crate::materialx::diagnostic::{diagnostic_views, DiagnosticView};
use crate::materialx::registry::MaterialXRegistry;
use crate::path::{child_path, parent_path};
use crate::read::util::{as_text, as_texts, targets_of};
use crate::stage::{Scalar, Stage, Value};
use crate::text::{opt_view, views};
use vstd::prelude::*;

verus! {

/// A camera is orthographic only where the token says so, else perspective with
/// the authored aperture and focal length. Near and far are the two parts of
/// the clipping range in order; what is not authored is the schema's default.
pub proof fn projections_follow_the_camera(stage: Stage, path: Seq<char>)
    ensures
        stage.type_of(path) != Ok::<Option<Seq<char>>, Seq<char>>(Some("Camera"@))
            <==> projection_plan(stage, path) == ProjectionPlan::Unchanged,
        projection_plan(stage, path) is Orthographic ==> (stage.value_of(
            path,
            "projection"@,
        ) matches Some(Value::Token(t)) && t@ == "orthographic"@),
        projection_plan(stage, path) is Perspective ==> !(stage.value_of(
            path,
            "projection"@,
        ) matches Some(Value::Token(t)) && t@ == "orthographic"@),
        (projection_plan(stage, path) matches ProjectionPlan::Orthographic { near, far } ==> {
            &&& stage.value_of(path, "clippingRange"@) matches Some(Value::Vec2f(x, y)) ==> near
                == Scalar::F32(x) && far == Scalar::F32(y)
            &&& stage.value_of(path, "clippingRange"@) matches Some(Value::Vec2d(x, y)) ==> near
                == Scalar::F64(x) && far == Scalar::F64(y)
            &&& stage.value_of(path, "clippingRange"@) is None ==> near == Scalar::F32(0x3dcc_cccd)
                && far == Scalar::F32(0x4974_2400)
        }),
        (projection_plan(stage, path) matches ProjectionPlan::Perspective {
            aperture,
            focal,
            near,
            far,
        } ==> {
            &&& stage.value_of(path, "clippingRange"@) matches Some(Value::Vec2f(x, y)) ==> near
                == Scalar::F32(x) && far == Scalar::F32(y)
            &&& stage.value_of(path, "clippingRange"@) matches Some(Value::Vec2d(x, y)) ==> near
                == Scalar::F64(x) && far == Scalar::F64(y)
            &&& stage.value_of(path, "clippingRange"@) is None ==> near == Scalar::F32(0x3dcc_cccd)
                && far == Scalar::F32(0x4974_2400)
            &&& stage.value_of(path, "verticalAperture"@) matches Some(Value::Float(b)) ==> aperture
                == Scalar::F32(b)
            &&& stage.value_of(path, "verticalAperture"@) is None ==> aperture == Scalar::F32(
                0x4174_ba5e,
            )
            &&& stage.value_of(path, "focalLength"@) matches Some(Value::Float(b)) ==> focal
                == Scalar::F32(b)
            &&& stage.value_of(path, "focalLength"@) is None ==> focal == Scalar::F32(0x4248_0000)
        }),
{
}

/// Each of the three prim types has its own marker with the property that it
/// is about, and no other prim has one.
pub proof fn markers_follow_the_type(
    stage: Stage,
    path: Seq<char>,
    kind: Seq<char>,
    r: Option<Marker>,
)
    requires
        marks(stage, path, kind, r),
    ensures
        r is Some <==> kind == "RenderSettings"@ || kind == "GenerativeProcedural"@ || kind
            == "Backdrop"@,
        kind == "RenderSettings"@ ==> (r matches Some(Marker::RenderSettings(m)) && views(
            m.included_purposes@,
        ) == as_texts(stage.value_of(path, "includedPurposes"@)) && opt_view(m.color_space)
            == as_text(stage.value_of(path, "renderingColorSpace"@))),
        kind == "GenerativeProcedural"@ ==> (r matches Some(Marker::Procedural(m)) && opt_view(
            m.system,
        ) == as_text(stage.value_of(path, "proceduralSystem"@))),
        kind == "Backdrop"@ ==> (r matches Some(Marker::Backdrop(m)) && opt_view(m.description)
            == as_text(stage.value_of(path, "ui:description"@))),
{
    reveal_strlit("RenderSettings");
    reveal_strlit("GenerativeProcedural");
    reveal_strlit("Backdrop");
    assert("RenderSettings"@.len() == 14);
    assert("GenerativeProcedural"@.len() == 20);
    assert("Backdrop"@.len() == 8);
}

/// A measure is the authored number, whether a float or a double, and the
/// given default only where there is none. An axis is Z unless a token names
/// another one.
pub proof fn measures_are_the_authored_ones(value: Value, otherwise: u32)
    ensures
        value matches Value::Float(b) ==> measure_of(Some(value), otherwise) == Scalar::F32(b),
        value matches Value::Double(b) ==> measure_of(Some(value), otherwise) == Scalar::F64(b),
        !(value is Float || value is Double) ==> measure_of(Some(value), otherwise) == Scalar::F32(
            otherwise,
        ),
        measure_of(None, otherwise) == Scalar::F32(otherwise),
        value matches Value::Token(t) ==> (axis_of(Some(value)) == Axis::X <==> t@ == "X"@),
        value matches Value::Token(t) ==> (axis_of(Some(value)) == Axis::Z <==> t@ == "Z"@),
        value matches Value::Token(t) ==> (axis_of(Some(value)) == Axis::Y <==> t@ != "X"@ && t@
            != "Z"@),
        axis_of(None) == Axis::Z,
{
    reveal_strlit("X");
    reveal_strlit("Z");
    assert("X"@[0] == 'X' && "Z"@[0] == 'Z');
}

/// Every shape type makes the shape of its name, with the measures and the axis
/// authored for it; where none are, a cube is two wide, a sphere, cylinder and
/// cone have radius one, the latter two height two, a capsule has radius one
/// half and height one, and a plane is one by one.
pub proof fn shapes_have_their_measures(stage: Stage, path: Seq<char>)
    ensures
        shape_of(stage, path, Some("Cube"@)) == Some(
            ShapePlan::Cube { size: measure_of(stage.value_of(path, "size"@), 0x4000_0000) },
        ),
        shape_of(stage, path, Some("Sphere"@)) == Some(
            ShapePlan::Sphere { radius: measure_of(stage.value_of(path, "radius"@), 0x3f80_0000) },
        ),
        shape_of(stage, path, Some("Cylinder"@)) == Some(
            ShapePlan::Cylinder {
                radius: measure_of(stage.value_of(path, "radius"@), 0x3f80_0000),
                height: measure_of(stage.value_of(path, "height"@), 0x4000_0000),
                axis: axis_of(stage.value_of(path, "axis"@)),
            },
        ),
        shape_of(stage, path, Some("Capsule"@)) == Some(
            ShapePlan::Capsule {
                radius: measure_of(stage.value_of(path, "radius"@), 0x3f00_0000),
                height: measure_of(stage.value_of(path, "height"@), 0x3f80_0000),
                axis: axis_of(stage.value_of(path, "axis"@)),
            },
        ),
        shape_of(stage, path, Some("Cone"@)) == Some(
            ShapePlan::Cone {
                radius: measure_of(stage.value_of(path, "radius"@), 0x3f80_0000),
                height: measure_of(stage.value_of(path, "height"@), 0x4000_0000),
                axis: axis_of(stage.value_of(path, "axis"@)),
            },
        ),
        shape_of(stage, path, Some("Plane"@)) == Some(
            ShapePlan::Plane {
                width: measure_of(stage.value_of(path, "width"@), 0x3f80_0000),
                length: measure_of(stage.value_of(path, "length"@), 0x3f80_0000),
                axis: axis_of(stage.value_of(path, "axis"@)),
            },
        ),
        shape_of(stage, path, None) is None,
        shape_of(stage, path, Some("Mesh"@)) is None,
{
    reveal_strlit("Cube");
    reveal_strlit("Sphere");
    reveal_strlit("Cylinder");
    reveal_strlit("Capsule");
    reveal_strlit("Cone");
    reveal_strlit("Plane");
    reveal_strlit("Mesh");
    assert("Cube"@.len() == 4 && "Cube"@[1] == 'u');
    assert("Cone"@.len() == 4 && "Cone"@[1] == 'o');
    assert("Mesh"@.len() == 4 && "Mesh"@[1] == 'e');
    assert("Plane"@.len() == 5);
    assert("Sphere"@.len() == 6);
    assert("Capsule"@.len() == 7);
    assert("Cylinder"@.len() == 8);
}

/// Each of the three purposes is drawn exactly where its flag is set, and every
/// other purpose always.
pub proof fn purposes_are_drawn_by_their_flag(p: DisplayPurposes, purpose: Seq<char>)
    ensures
        p.draws("render"@) == p.render,
        p.draws("proxy"@) == p.proxy,
        p.draws("guide"@) == p.guide,
        purpose != "render"@ && purpose != "proxy"@ && purpose != "guide"@ ==> p.draws(purpose),
        p.draws("default"@),
{
    reveal_strlit("render");
    reveal_strlit("proxy");
    reveal_strlit("guide");
    reveal_strlit("default");
    assert("render"@[0] == 'r' && "proxy"@[0] == 'p' && "guide"@[0] == 'g');
    assert("default"@[0] == 'd');
}

/// A prim has the purpose that it authors, and only without one that of the
/// prim above it; a root without one has the default purpose.
pub proof fn purposes_are_inherited(stage: Stage, path: Seq<char>)
    ensures
        stage.value_of(path, "purpose"@) matches Some(Value::Token(t)) ==> effective_purpose(
            stage,
            path,
        ) == t@,
        stage.value_of(path, "purpose"@) matches Some(Value::Text(t)) ==> effective_purpose(
            stage,
            path,
        ) == t@,
        stage.default_value(path, "purpose"@) is Ok && as_text(stage.value_of(path, "purpose"@))
            is None ==> (parent_path(path) is None ==> effective_purpose(stage, path)
            == "default"@),
        stage.default_value(path, "purpose"@) is Ok && as_text(stage.value_of(path, "purpose"@))
            is None ==> (parent_path(path) matches Some(above) ==> (above.len() < path.len()
            ==> effective_purpose(stage, path) == effective_purpose(stage, above))),
        stage.default_value(path, "purpose"@) is Err ==> effective_purpose(stage, path)
            == "default"@,
{
}

/// A prim that is authored invisible is not drawn whatever its purpose is, and
/// one that is not is drawn exactly where its purpose is.
pub proof fn invisible_prims_are_not_drawn(stage: Stage, path: Seq<char>, p: DisplayPurposes)
    ensures
        (stage.value_of(path, "visibility"@) matches Some(Value::Token(t)) && t@ == "invisible"@)
            ==> undrawn(stage, path, p),
        (stage.value_of(path, "visibility"@) matches Some(Value::Text(t)) && t@ == "invisible"@)
            ==> undrawn(stage, path, p),
        as_text(stage.value_of(path, "visibility"@)) != Some("invisible"@) ==> (undrawn(
            stage,
            path,
            p,
        ) <==> !p.draws(effective_purpose(stage, path))),
{
}

/// Which changes resolve visibility again, and which build a mesh again.
pub proof fn changes_are_sorted_by_property(name: Seq<char>)
    ensures
        decides_visibility("visibility"@),
        decides_visibility("purpose"@),
        name != "visibility"@ && name != "purpose"@ ==> !decides_visibility(name),
        decides_geometry("points"@),
        decides_geometry("faceVertexCounts"@),
        decides_geometry("faceVertexIndices"@),
        decides_geometry("normals"@),
        decides_geometry("orientation"@),
        decides_geometry("subdivisionScheme"@),
        decides_geometry("doubleSided"@),
        decides_geometry("primvars:"@ + name),
{
    let all = "primvars:"@ + name;
    assert("primvars:"@ =~= all.subrange(0, "primvars:"@.len() as int));
}

/// The base colour of a preview surface is the authored colour with the
/// authored opacity, opaque without one; an opacity alone changes only alpha.
pub proof fn preview_colors_keep_what_is_authored(read: ReadPreviewMaterial)
    ensures
        read.diffuse_color matches Some(c) ==> (read.opacity matches Some(a) ==> preview_color(read)
            == PreviewColor::Srgba(c, a)),
        read.diffuse_color matches Some(c) ==> (read.opacity is None ==> preview_color(read)
            == PreviewColor::Srgba(c, 0x3f80_0000)),
        read.diffuse_color is None ==> (read.opacity matches Some(a) ==> preview_color(read)
            == PreviewColor::AlphaOnly(a)),
        read.diffuse_color is None && read.opacity is None ==> preview_color(read)
            == PreviewColor::Unchanged,
        loadable(read@.diffuse_texture, true) == read@.diffuse_texture,
        loadable(read@.diffuse_texture, false) is None,
{
}

/// Stable ids are kept as they are authored, narrow ones widened.
pub proof fn ids_keep_their_values(value: Value, i: int)
    ensures
        value matches Value::Int64Vec(v) ==> ids_of(Some(value)) == v@,
        value matches Value::IntVec(v) ==> ids_of(Some(value)).len() == v@.len() && (0 <= i
            < v@.len() ==> ids_of(Some(value))[i] == v@[i]),
        !(value is Int64Vec || value is IntVec) ==> ids_of(Some(value)).len() == 0,
        ids_of(None).len() == 0,
{
}

/// Node `k` has each of its children among the nodes, with itself as parent,
/// where entry numbers start at `base`.
pub open spec fn children_are_listed(
    stage: Stage,
    nodes: Seq<NodeView>,
    from: Seq<char>,
    me: nat,
    count: nat,
) -> bool {
    forall|c: int|
        0 <= c < count ==> (child_path(from, #[trigger] children_of(stage, from)[c]) matches Ok(child)
            ==> (child.len() > from.len() ==> nodes.contains(
            NodeView { parent: Some(me as usize), path: child },
        )))
}

proof fn joined_lists_hold_both(a: Seq<NodeView>, b: Seq<NodeView>, x: NodeView)
    ensures
        a.contains(x) || b.contains(x) ==> (a + b).contains(x),
{
    if a.contains(x) {
        let k = choose|k: int| 0 <= k < a.len() && a[k] == x;
        assert((a + b)[k] == x);
    }
    if b.contains(x) {
        let k = choose|k: int| 0 <= k < b.len() && b[k] == x;
        assert((a + b)[a.len() + k] == x);
    }
}

proof fn listing_grows(
    stage: Stage,
    a: Seq<NodeView>,
    b: Seq<NodeView>,
    from: Seq<char>,
    me: nat,
    count: nat,
)
    requires
        children_are_listed(stage, a, from, me, count) || children_are_listed(
            stage,
            b,
            from,
            me,
            count,
        ),
    ensures
        children_are_listed(stage, a + b, from, me, count),
{
    assert forall|c: int| 0 <= c < count implies (child_path(
        from,
        #[trigger] children_of(stage, from)[c],
    ) matches Ok(child) ==> (child.len() > from.len() ==> (a + b).contains(
        NodeView { parent: Some(me as usize), path: child },
    ))) by {
        if let Ok(child) = child_path(from, children_of(stage, from)[c]) {
            joined_lists_hold_both(a, b, NodeView { parent: Some(me as usize), path: child });
        }
    }
}

/// A baked prototype is whole: every prim of it is listed with each of its
/// children after it, as children of its own entry.
pub proof fn prototypes_hold_their_descendants(
    stage: Stage,
    path: Seq<char>,
    parent: Option<usize>,
    base: nat,
    k: int,
)
    requires
        0 <= k < subtree(stage, path, parent, base).len(),
    ensures
        ({
            let nodes = subtree(stage, path, parent, base);
            children_are_listed(
                stage,
                nodes,
                nodes[k].path,
                (base + k) as nat,
                children_of(stage, nodes[k].path).len(),
            )
        }),
    decreases slack(stage, path), 1int, 0nat,
{
    let own = seq![NodeView { parent, path }];
    let count = children_of(stage, path).len();
    let rest = below(stage, path, base, count);
    let nodes = subtree(stage, path, parent, base);
    assert(nodes == own + rest);
    if k == 0 {
        lower_prims_are_children(stage, path, base, count);
        listing_grows(stage, own, rest, path, base, count);
    } else {
        lower_prims_hold_their_descendants(stage, path, base, count, k - 1);
        assert(nodes[k] == rest[k - 1]);
        listing_grows(
            stage,
            own,
            rest,
            rest[k - 1].path,
            (base + k) as nat,
            children_of(stage, rest[k - 1].path).len(),
        );
    }
}

proof fn lower_prims_are_children(stage: Stage, path: Seq<char>, me: nat, count: nat)
    requires
        count <= children_of(stage, path).len(),
    ensures
        children_are_listed(stage, below(stage, path, me, count), path, me, count),
    decreases count,
{
    if count > 0 {
        let last = (count - 1) as nat;
        lower_prims_are_children(stage, path, me, last);
        let rest = below(stage, path, me, last);
        let all = below(stage, path, me, count);
        if let Ok(child) = child_path(path, children_of(stage, path)[last as int]) {
            if child.len() > path.len() {
                children_have_less_slack(stage, path, child);
                let added = subtree(stage, child, Some(me as usize), me + 1 + rest.len());
                assert(all == rest + added);
                listing_grows(stage, rest, added, path, me, last);
                assert(added[0] == (NodeView { parent: Some(me as usize), path: child }));
                joined_lists_hold_both(rest, added, added[0]);
            }
        }
        assert forall|c: int| 0 <= c < count implies (child_path(
            path,
            #[trigger] children_of(stage, path)[c],
        ) matches Ok(child) ==> (child.len() > path.len() ==> all.contains(
            NodeView { parent: Some(me as usize), path: child },
        ))) by {}
    }
}

proof fn lower_prims_hold_their_descendants(
    stage: Stage,
    path: Seq<char>,
    me: nat,
    count: nat,
    k: int,
)
    requires
        count <= children_of(stage, path).len(),
        0 <= k < below(stage, path, me, count).len(),
    ensures
        ({
            let nodes = below(stage, path, me, count);
            children_are_listed(
                stage,
                nodes,
                nodes[k].path,
                (me + 1 + k) as nat,
                children_of(stage, nodes[k].path).len(),
            )
        }),
    decreases slack(stage, path), 0int, count,
{
    let last = (count - 1) as nat;
    let rest = below(stage, path, me, last);
    let all = below(stage, path, me, count);
    match child_path(path, children_of(stage, path)[last as int]) {
        Ok(child) if child.len() > path.len() => {
            children_have_less_slack(stage, path, child);
            let base = me + 1 + rest.len();
            let added = subtree(stage, child, Some(me as usize), base);
            assert(all == rest + added);
            let total = children_of(stage, all[k].path).len();
            if k < rest.len() {
                lower_prims_hold_their_descendants(stage, path, me, last, k);
                assert(all[k] == rest[k]);
                listing_grows(stage, rest, added, all[k].path, (me + 1 + k) as nat, total);
            } else {
                let within = k - rest.len();
                assert(all[k] == added[within]);
                prototypes_hold_their_descendants(
                    stage,
                    child,
                    Some(me as usize),
                    base,
                    within,
                );
                assert(base + within == me + 1 + k);
                listing_grows(stage, rest, added, all[k].path, (me + 1 + k) as nat, total);
            }
        },
        _ => {
            lower_prims_hold_their_descendants(stage, path, me, last, k);
        },
    }
}

/// A prototype has geometry exactly where one of its prims is a mesh.
pub proof fn prototypes_with_a_mesh_have_geometry(
    nodes: Seq<NodeView>,
    meshes: Seq<Seq<char>>,
    i: int,
)
    ensures
        0 <= i < nodes.len() && meshes.contains(nodes[i].path) ==> has_geometry(nodes, meshes),
        meshes.len() == 0 ==> !has_geometry(nodes, meshes),
{
}

/// Only prototypes that some instance shows are baked.
pub proof fn only_used_prototypes_are_baked(instances: Seq<Instance>, count: nat, p: usize)
    requires
        count <= instances.len(),
        used_prototypes(instances, count).contains(p),
    ensures
        exists|i: int| 0 <= i < count && (#[trigger] instances[i]).prototype == Some(p),
    decreases count,
{
    if count > 0 {
        let last = (count - 1) as nat;
        let rest = used_prototypes(instances, last);
        if instances[last as int].prototype != Some(p) {
            if let Some(q) = instances[last as int].prototype {
                pushed_members(rest, q, p);
            }
            only_used_prototypes_are_baked(instances, last, p);
        }
    }
}

/// A prim is source data where it is, or lies below, a prototype of some point
/// instancer of the stage.
pub proof fn prototypes_of_instancers_are_sources(
    stage: Stage,
    path: Seq<char>,
    count: nat,
    i: int,
    k: int,
)
    requires
        0 <= i < count <= stage.prims@.len(),
        stage.type_of(stage.prims@[i].path@) == Ok::<Option<Seq<char>>, Seq<char>>(
            Some("PointInstancer"@),
        ),
        0 <= k < targets_of(stage, stage.prims@[i].path@, "prototypes"@).len(),
        is_under(path, targets_of(stage, stage.prims@[i].path@, "prototypes"@)[k]),
    ensures
        is_source(stage, path, count),
{
    assert(instances_prototype(stage, path, stage.prims@[i].path@, k));
}

/// Source data belongs to a prototype of a point instancer.
pub proof fn sources_belong_to_an_instancer(stage: Stage, path: Seq<char>, count: nat)
    requires
        is_source(stage, path, count),
    ensures
        exists|i: int, k: int|
            0 <= i < count && 0 <= k < targets_of(
                stage,
                (#[trigger] stage.prims@[i]).path@,
                "prototypes"@,
            ).len() && is_under(
                path,
                #[trigger] targets_of(stage, stage.prims@[i].path@, "prototypes"@)[k],
            ) && stage.type_of(stage.prims@[i].path@) == Ok::<Option<Seq<char>>, Seq<char>>(
                Some("PointInstancer"@),
            ),
{
    let (i, k) = choose|i: int, k: int|
        0 <= i < count && instances_prototype(stage, path, stage.prims@[i].path@, k);
    assert(is_under(path, targets_of(stage, stage.prims@[i].path@, "prototypes"@)[k]));
}

/// Joining a conversion adds the entity to those that wait for that geometry,
/// once, and leaves everything else of every conversion.
pub proof fn joining_touches_only_its_geometry<K>(
    pending: Seq<PendingView<K>>,
    signature: u64,
    entity: u64,
    i: int,
)
    requires
        0 <= i < pending.len(),
    ensures
        joined(pending, signature, entity).len() == pending.len(),
        joined(pending, signature, entity)[i].signature == pending[i].signature,
        joined(pending, signature, entity)[i].task == pending[i].task,
        joined(pending, signature, entity)[i].label == pending[i].label,
        pending[i].signature != signature ==> joined(pending, signature, entity)[i] == pending[i],
        pending[i].signature == signature && pending[i].entities.contains(entity) ==> joined(
            pending,
            signature,
            entity,
        )[i].entities == pending[i].entities,
        pending[i].signature == signature && !pending[i].entities.contains(entity) ==> joined(
            pending,
            signature,
            entity,
        )[i].entities == pending[i].entities + seq![entity],
{
    assert(pending[i].entities.push(entity) =~= pending[i].entities + seq![entity]);
}

/// An entity still waits exactly where it waited and its newest request is for
/// this geometry.
pub proof fn waiting_needs_a_matching_request(
    entities: Seq<u64>,
    signature: u64,
    requests: Map<u64, u64>,
    entity: u64,
)
    ensures
        still_waiting(entities, signature, requests).contains(entity) <==> entities.contains(entity)
            && requests.contains_key(entity) && requests[entity] == signature,
    decreases entities.len(),
{
    reveal(Seq::filter);
    if entities.len() > 0 {
        let front = entities.drop_last();
        waiting_needs_a_matching_request(front, signature, requests, entity);
        let inner = still_waiting(front, signature, requests);
        let last = entities.last();
        pushed_members(front, last, entity);
        assert(front.push(last) =~= entities);
        pushed_members(inner, last, entity);
    }
}

/// A conversion is kept exactly where some entity still waits for it, with the
/// same task and label.
pub proof fn wanted_conversions_are_kept<K>(
    pending: Seq<PendingView<K>>,
    requests: Map<u64, u64>,
    i: int,
)
    requires
        0 <= i < pending.len(),
        still_waiting(pending[i].entities, pending[i].signature, requests).len() > 0,
    ensures
        retained(pending, requests).contains(
            PendingView {
                signature: pending[i].signature,
                task: pending[i].task,
                entities: still_waiting(pending[i].entities, pending[i].signature, requests),
                label: pending[i].label,
            },
        ),
    decreases pending.len(),
{
    let front = pending.drop_last();
    let last = pending.last();
    let rest = retained(front, requests);
    let out = retained(pending, requests);
    let waiting = still_waiting(last.entities, last.signature, requests);
    let wanted = PendingView {
        signature: pending[i].signature,
        task: pending[i].task,
        entities: still_waiting(pending[i].entities, pending[i].signature, requests),
        label: pending[i].label,
    };
    if i < front.len() {
        assert(front[i] == pending[i]);
        wanted_conversions_are_kept(front, requests, i);
        if waiting.len() > 0 {
            pushed_members(rest, PendingView { entities: waiting, ..last }, wanted);
        }
    } else {
        assert(out[rest.len() as int] == wanted);
    }
}

/// A table that takes a handle has it afterwards. It keeps all others, unless
/// it held 8192 already: then it starts anew.
pub proof fn interning_keeps_the_newest<H>(
    table: Map<u64, H>,
    signature: u64,
    handle: H,
    other: u64,
)
    requires
        other != signature,
    ensures
        interned(table, signature, handle).contains_key(signature),
        interned(table, signature, handle)[signature] == handle,
        table.len() < 8192 ==> (interned(table, signature, handle).contains_key(other)
            <==> table.contains_key(other)),
        table.len() < 8192 && table.contains_key(other) ==> interned(
            table,
            signature,
            handle,
        )[other] == table[other],
        table.len() >= 8192 ==> !interned(table, signature, handle).contains_key(other),
{
}

/// The parts of a mesh, a primvar and a preview surface are seen field by
/// field.
pub proof fn route_inputs_are_seen_field_by_field(
    m: MeshInputs,
    p: MeshPrimvar,
    read: ReadPreviewMaterial,
)
    ensures
        m@.points == m.points@,
        m@.face_vertex_counts == m.face_vertex_counts@,
        m@.face_vertex_indices == m.face_vertex_indices@,
        m@.orientation == m.orientation,
        m.normals matches Some(n) ==> m@.normals == Some(n@),
        m.uvs matches Some(n) ==> m@.uvs == Some(n@),
        m.display_color matches Some(n) ==> m@.display_color == Some(n@),
        m.display_opacity matches Some(n) ==> m@.display_opacity == Some(n@),
        p@.lanes == p.lanes@ && p@.interpolation == p.interpolation && p@.indices == p.indices@,
        read@.diffuse_color == read.diffuse_color,
        read@.opacity == read.opacity,
        read@.opacity_threshold == read.opacity_threshold,
        read@.roughness == read.roughness,
        read@.metallic == read.metallic,
        read@.emissive_color == read.emissive_color,
        read@.ior == read.ior,
        read@.diffuse_texture == opt_view(read.diffuse_texture),
        read@.normal_texture == opt_view(read.normal_texture),
        read@.roughness_texture == opt_view(read.roughness_texture),
        read@.metallic_texture == opt_view(read.metallic_texture),
        read@.opacity_texture == opt_view(read.opacity_texture),
        read@.emissive_texture == opt_view(read.emissive_texture),
        read@.occlusion_texture == opt_view(read.occlusion_texture),
        read@.uv_transform == read.uv_transform,
{
}

/// A running conversion and a node of a prototype are seen field by field.
pub proof fn route_entries_are_seen_field_by_field<K>(p: PendingUsdMesh<K>, n: PrototypeNode)
    ensures
        p@.signature == p.signature,
        p@.task == p.task,
        p@.entities == p.entities@,
        p@.label == p.label@,
        n@.parent == n.parent,
        n@.path == n.path@,
{
}

/// A search for a document that found one asks to compile it, one that found
/// none reads the preview surface, and one that failed fails with its
/// diagnostic alone.
pub proof fn searches_lead_on(step: MaterialXStep, d: DiagnosticView, source: (Seq<char>, Seq<char>))
    ensures
        external_step(step, Ok(Some(source))) ==> (step matches MaterialXStep::CompileDocument(s)
            && s.document@ == source.0 && s.material_name@ == source.1),
        external_step(step, Ok(None)) ==> step == MaterialXStep::NotMaterialX,
        external_step(step, Err(d)) ==> (step matches MaterialXStep::Done(Err(f))
            && f.diagnostics@.len() == 1 && f.diagnostics@[0]@ == d),
{
    if external_step(step, Err(d)) {
        let list = step->Done_0->Err_0.diagnostics@;
        assert(diagnostic_views(list).len() == list.len());
        assert(diagnostic_views(list)[0] == list[0]@);
    }
}

/// The graph of a bound material is that of the stage at the binding, with the
/// descriptors of the registry.
pub proof fn bound_graphs_are_of_their_binding(
    stage: Stage,
    binding: Seq<char>,
    registry: MaterialXRegistry,
)
    ensures
        bound_graph(stage, binding, registry).stage == stage,
        bound_graph(stage, binding, registry).material == binding,
        bound_graph(stage, binding, registry).nodes == registry.descriptors(),
{
}

/// Some conversion is for a geometry exactly where one of the running ones has
/// its signature.
pub proof fn conversions_are_known_by_signature<K>(
    pending: Seq<PendingView<K>>,
    signature: u64,
    i: int,
)
    ensures
        0 <= i < pending.len() && pending[i].signature == signature ==> converting(
            pending,
            signature,
        ),
        converting(pending, signature) ==> exists|k: int|
            0 <= k < pending.len() && (#[trigger] pending[k]).signature == signature,
{
}

} // verus!
