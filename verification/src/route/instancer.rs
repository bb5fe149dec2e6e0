//! Point instancer route: which instances a point instancer spawns, where they
//! stand, and the prims that their prototypes are made of.

use super::geom::{undrawn, DisplayPurposes};
use crate::live::{is_under, lies_under};
use crate::path::{append_path, braces_open_first, child_path};
use crate::read::util::{as_quads, as_triples, copy_items, targets_at, targets_of, triples_at};
use crate::stage::{find_prim, Prim, Quad, Stage, Triple, Value};
use crate::text::{copy, copy_all, str_eq, views};
use vstd::prelude::*;

verus! {

/// The tables of a point instancer.
#[derive(Debug)]
pub struct ReadPointInstancer {
    pub positions: Vec<Triple>,
    pub orientations: Vec<Quad>,
    pub scales: Vec<Triple>,
    pub proto_indices: Vec<i32>,
    pub ids: Vec<i64>,
    pub prototypes: Vec<String>,
}

/// One instance: which point it is, where it stands and what it shows.
#[derive(Debug, Clone, Copy, PartialEq, Eq, Structural)]
pub struct Instance {
    pub index: usize,
    pub translation: Triple,
    pub rotation: Option<Quad>,
    pub scale: Option<Triple>,
    pub prototype: Option<usize>,
}

/// The ids in an `invisibleIds` value.
pub open spec fn ids_of(value: Option<Value>) -> Seq<i64> {
    match value {
        Some(Value::Int64Vec(v)) => v@,
        Some(Value::IntVec(v)) => v@.map_values(|x: i32| x as i64),
        _ => Seq::empty(),
    }
}

/// Stable instance IDs marked invisible.
pub fn invisible_ids(stage: &Stage, prim: &str) -> (r: Vec<i64>)
    ensures
        r@ == ids_of(stage.value_of(prim@, "invisibleIds"@)),
{
    match stage.value(prim, "invisibleIds") {
        Some(Value::Int64Vec(v)) => copy_items(v),
        Some(Value::IntVec(v)) => {
            let mut out: Vec<i64> = Vec::new();
            for i in 0..v.len()
                invariant
                    out@ == v@.take(i as int).map_values(|x: i32| x as i64),
            {
                out.push(v[i] as i64);
                assert(out@ =~= v@.take(i as int + 1).map_values(|x: i32| x as i64));
            }
            assert(v@.take(v@.len() as int) =~= v@);
            out
        },
        _ => {
            let none: Vec<i64> = Vec::new();
            assert(none@ =~= Seq::<i64>::empty());
            none
        },
    }
}

/// The stable id of a point: the authored one, or its index.
pub open spec fn id_of(read: ReadPointInstancer, i: int) -> int {
    if i < read.ids@.len() {
        read.ids@[i] as int
    } else {
        i
    }
}

/// The prototype of a point: the first without an authored index, none where
/// the index names no prototype.
pub open spec fn prototype_of(read: ReadPointInstancer, i: int) -> Option<usize> {
    let index = if i < read.proto_indices@.len() {
        read.proto_indices@[i] as int
    } else {
        0
    };
    if 0 <= index < read.prototypes@.len() {
        Some(index as usize)
    } else {
        None
    }
}

/// The instance of a point.
pub open spec fn instance_of(read: ReadPointInstancer, i: int) -> Instance {
    Instance {
        index: i as usize,
        translation: read.positions@[i],
        rotation: if i < read.orientations@.len() {
            Some(read.orientations@[i])
        } else {
            None
        },
        scale: if i < read.scales@.len() {
            Some(read.scales@[i])
        } else {
            None
        },
        prototype: prototype_of(read, i),
    }
}

/// The point is shown.
pub open spec fn is_shown(read: ReadPointInstancer, invisible: Seq<i64>, i: int) -> bool {
    !exists|k: int| 0 <= k < invisible.len() && #[trigger] invisible[k] == id_of(read, i)
}

/// The instances of the first `count` points: those whose stable id is not
/// marked invisible, in order.
pub open spec fn instances_of(read: ReadPointInstancer, invisible: Seq<i64>, count: nat) -> Seq<
    Instance,
>
    decreases count,
{
    if count == 0 {
        Seq::empty()
    } else {
        let rest = instances_of(read, invisible, (count - 1) as nat);
        if is_shown(read, invisible, count - 1) {
            rest.push(instance_of(read, count - 1))
        } else {
            rest
        }
    }
}

fn shown(read: &ReadPointInstancer, invisible: &Vec<i64>, i: usize) -> (r: bool)
    ensures
        r == is_shown(*read, invisible@, i as int),
{
    let mut own: i128 = i as i128;
    if i < read.ids.len() {
        own = read.ids[i] as i128;
    }
    for k in 0..invisible.len()
        invariant
            own == id_of(*read, i as int),
            forall|q: int| 0 <= q < k ==> #[trigger] invisible@[q] != id_of(*read, i as int),
    {
        if invisible[k] as i128 == own {
            return false;
        }
    }
    true
}

fn instance_transform(read: &ReadPointInstancer, i: usize) -> (r: Instance)
    requires
        i < read.positions@.len(),
    ensures
        r == instance_of(*read, i as int),
{
    let rotation = if i < read.orientations.len() {
        Some(read.orientations[i])
    } else {
        None
    };
    let scale = if i < read.scales.len() {
        Some(read.scales[i])
    } else {
        None
    };
    let index: i32 = if i < read.proto_indices.len() {
        read.proto_indices[i]
    } else {
        0
    };
    let prototype: Option<usize> = if index < 0 {
        None
    } else {
        let wide: u64 = index as u64;
        if wide < read.prototypes.len() as u64 {
            Some(index as usize)
        } else {
            None
        }
    };
    Instance { index: i, translation: read.positions[i], rotation, scale, prototype }
}

/// The instances that an instancer spawns.
pub fn project_instances(read: &ReadPointInstancer, invisible: &Vec<i64>) -> (r: Vec<Instance>)
    ensures
        r@ == instances_of(*read, invisible@, read.positions@.len()),
        forall|k: int| 0 <= k < r@.len() ==> stands_at_its_point(*read, #[trigger] r@[k]),
        forall|k: int|
            0 <= k < r@.len() ==> !names_the_point(*read, invisible@, (#[trigger] r@[k]).index as int),
        forall|i: int|
            0 <= i < read.positions@.len() && !names_the_point(*read, invisible@, i)
                ==> exists|k: int| 0 <= k < r@.len() && (#[trigger] r@[k]).index == i,
        forall|a: int, b: int|
            0 <= a < b < r@.len() ==> (#[trigger] r@[a]).index < (#[trigger] r@[b]).index,
{
    let mut out: Vec<Instance> = Vec::new();
    for i in 0..read.positions.len()
        invariant
            out@ == instances_of(*read, invisible@, i as nat),
    {
        if shown(read, invisible, i) {
            out.push(instance_transform(read, i));
        }
    }
    proof {
        shown_points_are_spawned_once(*read, invisible@, read.positions@.len());
    }
    out
}

/// The instance has the position, orientation and scale authored for its
/// point. Its prototype is the one that `protoIndices` gives for the point, or
/// none where that names no prototype; only a point without an entry there
/// shows the first prototype.
pub open spec fn stands_at_its_point(read: ReadPointInstancer, x: Instance) -> bool {
    let i = x.index as int;
    &&& i < read.positions@.len()
    &&& x.translation == read.positions@[i]
    &&& i < read.orientations@.len() ==> x.rotation == Some(read.orientations@[i])
    &&& i >= read.orientations@.len() ==> x.rotation is None
    &&& i < read.scales@.len() ==> x.scale == Some(read.scales@[i])
    &&& i >= read.scales@.len() ==> x.scale is None
    &&& i < read.proto_indices@.len() && 0 <= read.proto_indices@[i] < read.prototypes@.len()
        ==> x.prototype == Some(read.proto_indices@[i] as usize)
    &&& i < read.proto_indices@.len() && !(0 <= read.proto_indices@[i] < read.prototypes@.len())
        ==> x.prototype is None
    &&& i >= read.proto_indices@.len() && read.prototypes@.len() > 0 ==> x.prototype == Some(0usize)
    &&& i >= read.proto_indices@.len() && read.prototypes@.len() == 0 ==> x.prototype is None
}

/// A list of ids holds the authored id of a point, or the index of a point
/// without one.
pub open spec fn names_the_point(read: ReadPointInstancer, ids: Seq<i64>, i: int) -> bool {
    exists|q: int|
        0 <= q < ids.len() && (if i < read.ids@.len() {
            #[trigger] ids[q] == read.ids@[i]
        } else {
            ids[q] == i
        })
}

/// Exactly the points that are not named invisible are spawned, each once and
/// in order, and each stands where and shows what the tables say for it.
pub proof fn shown_points_are_spawned_once(
    read: ReadPointInstancer,
    invisible: Seq<i64>,
    count: nat,
)
    requires
        count <= read.positions@.len() <= usize::MAX,
    ensures
        forall|k: int|
            #![trigger instances_of(read, invisible, count)[k]]
            0 <= k < instances_of(read, invisible, count).len() ==> stands_at_its_point(
                read,
                instances_of(read, invisible, count)[k],
            ) && instances_of(read, invisible, count)[k].index < count && !names_the_point(
                read,
                invisible,
                instances_of(read, invisible, count)[k].index as int,
            ),
        forall|i: int|
            0 <= i < count && !names_the_point(read, invisible, i) ==> exists|k: int|
                0 <= k < instances_of(read, invisible, count).len() && (
                #[trigger] instances_of(read, invisible, count)[k]).index == i,
        forall|a: int, b: int|
            0 <= a < b < instances_of(read, invisible, count).len() ==> (
            #[trigger] instances_of(read, invisible, count)[a]).index < (
            #[trigger] instances_of(read, invisible, count)[b]).index,
    decreases count,
{
    if count > 0 {
        let last = count - 1;
        shown_points_are_spawned_once(read, invisible, last as nat);
        let rest = instances_of(read, invisible, last as nat);
        let all = instances_of(read, invisible, count);
        assert(is_shown(read, invisible, last) == !names_the_point(read, invisible, last)) by {
            if !is_shown(read, invisible, last) {
                let k = choose|k: int|
                    0 <= k < invisible.len() && #[trigger] invisible[k] == id_of(read, last);
                assert(invisible[k] == id_of(read, last));
                assert(names_the_point(read, invisible, last));
            }
        }
        assert forall|i: int|
            0 <= i < count && !names_the_point(read, invisible, i) implies exists|k: int|
            0 <= k < all.len() && (#[trigger] all[k]).index == i by {
            if i < last {
                let k = choose|k: int| 0 <= k < rest.len() && (#[trigger] rest[k]).index == i;
                assert(all[k] == rest[k]);
            } else {
                assert(all[rest.len() as int].index == i);
            }
        }
        assert forall|k: int| 0 <= k < all.len() implies stands_at_its_point(
            read,
            #[trigger] all[k],
        ) && all[k].index < count && !names_the_point(read, invisible, all[k].index as int) by {
            if k < rest.len() {
                assert(all[k] == rest[k]);
            }
        }
        assert forall|a: int, b: int| 0 <= a < b < all.len() implies (#[trigger] all[a]).index < (
        #[trigger] all[b]).index by {
            assert(all[a] == rest[a]);
            if b < rest.len() {
                assert(all[b] == rest[b]);
            }
        }
    }
}

/// Without ids marked invisible every point has its instance.
pub proof fn nothing_is_culled_by_default(read: ReadPointInstancer, count: nat)
    requires
        count <= read.positions@.len(),
    ensures
        instances_of(read, Seq::empty(), count) == Seq::new(
            count,
            |i: int| instance_of(read, i),
        ),
    decreases count,
{
    if count > 0 {
        nothing_is_culled_by_default(read, (count - 1) as nat);
        assert(is_shown(read, Seq::empty(), count - 1));
    }
    assert(instances_of(read, Seq::empty(), count) =~= Seq::new(
        count,
        |i: int| instance_of(read, i),
    ));
}

/// No instance whose stable id is marked invisible is spawned.
pub proof fn invisible_instances_are_culled(
    read: ReadPointInstancer,
    invisible: Seq<i64>,
    count: nat,
    k: int,
)
    requires
        count <= read.positions@.len() <= usize::MAX,
        0 <= k < instances_of(read, invisible, count).len(),
    ensures
        instances_of(read, invisible, count)[k].index < count,
        is_shown(read, invisible, instances_of(read, invisible, count)[k].index as int),
    decreases count,
{
    if count > 0 {
        let rest = instances_of(read, invisible, (count - 1) as nat);
        if k < rest.len() {
            invisible_instances_are_culled(read, invisible, (count - 1) as nat, k);
        }
    }
}

/// The tables of the point instancer at `prim`; `None` for a prim of another
/// type.
pub fn read_point_instancer(stage: &Stage, prim: &str) -> (r: Option<ReadPointInstancer>)
    ensures
        match stage.type_of(prim@) {
            Ok(Some(kind)) if kind == "PointInstancer"@ => r matches Some(read) && read.positions@
                == as_triples(stage.value_of(prim@, "positions"@)) && read.orientations@ == as_quads(
                stage.value_of(prim@, "orientations"@),
            ) && read.scales@ == as_triples(stage.value_of(prim@, "scales"@))
                && read.proto_indices@ == crate::read::util::or_empty(
                crate::read::util::as_ints(stage.value_of(prim@, "protoIndices"@)),
            ) && read.ids@ == ids_of(stage.value_of(prim@, "ids"@)) && views(read.prototypes@)
                == targets_of(*stage, prim@, "prototypes"@),
            _ => r is None,
        },
{
    match stage.prim_type(prim) {
        Ok(Some(t)) => if !str_eq(t.as_str(), "PointInstancer") {
            return None;
        },
        _ => return None,
    }
    let orientations = match stage.value(prim, "orientations") {
        Some(Value::QuatfVec(v)) => copy_items(v),
        _ => {
            let none: Vec<Quad> = Vec::new();
            assert(none@ =~= Seq::<Quad>::empty());
            none
        },
    };
    let proto_indices = match crate::read::util::ints_at(stage, prim, "protoIndices") {
        Some(v) => v,
        None => {
            let none: Vec<i32> = Vec::new();
            assert(none@ =~= Seq::<i32>::empty());
            none
        },
    };
    let ids = match stage.value(prim, "ids") {
        Some(Value::Int64Vec(v)) => copy_items(v),
        Some(Value::IntVec(v)) => {
            let mut out: Vec<i64> = Vec::new();
            for i in 0..v.len()
                invariant
                    out@ == v@.take(i as int).map_values(|x: i32| x as i64),
            {
                out.push(v[i] as i64);
                assert(out@ =~= v@.take(i as int + 1).map_values(|x: i32| x as i64));
            }
            assert(v@.take(v@.len() as int) =~= v@);
            out
        },
        _ => {
            let none: Vec<i64> = Vec::new();
            assert(none@ =~= Seq::<i64>::empty());
            none
        },
    };
    Some(
        ReadPointInstancer {
            positions: triples_at(stage, prim, "positions"),
            orientations,
            scales: triples_at(stage, prim, "scales"),
            proto_indices,
            ids,
            prototypes: targets_at(stage, prim, "prototypes"),
        },
    )
}

/// One prim of a prototype subtree. `parent` is the place of another entry,
/// which comes before this one.
#[derive(Debug)]
pub struct PrototypeNode {
    pub parent: Option<usize>,
    pub path: String,
}

/// A node, with its path as a character sequence.
#[verifier::ext_equal]
pub struct NodeView {
    pub parent: Option<usize>,
    pub path: Seq<char>,
}

impl View for PrototypeNode {
    type V = NodeView;

    open spec fn view(&self) -> NodeView {
        NodeView { parent: self.parent, path: self.path@ }
    }
}

/// The nodes, with their paths as character sequences.
pub open spec fn node_views(nodes: Seq<PrototypeNode>) -> Seq<NodeView> {
    nodes.map_values(|n: PrototypeNode| n@)
}

/// More than the length of any prim path.
pub open spec fn path_bound(prims: Seq<Prim>) -> nat
    decreases prims.len(),
{
    if prims.len() == 0 {
        0
    } else {
        let rest = path_bound(prims.skip(1));
        if prims[0].path@.len() + 1 > rest {
            prims[0].path@.len() + 1
        } else {
            rest
        }
    }
}

/// How much longer a path of the stage can be.
pub open spec fn slack(stage: Stage, path: Seq<char>) -> nat {
    if path.len() < path_bound(stage.prims@) {
        (path_bound(stage.prims@) - path.len()) as nat
    } else {
        0
    }
}

/// The child names of a prim.
pub open spec fn children_of(stage: Stage, path: Seq<char>) -> Seq<Seq<char>> {
    match find_prim(stage.prims@, path) {
        Some(p) => views(p.child_names@),
        None => Seq::empty(),
    }
}

proof fn found_paths_are_bounded(prims: Seq<Prim>, path: Seq<char>)
    ensures
        find_prim(prims, path) is Some ==> path.len() < path_bound(prims),
    decreases prims.len(),
{
    if prims.len() > 0 {
        found_paths_are_bounded(prims.skip(1), path);
    }
}

/// A child has less room for longer paths than its parent.
pub proof fn children_have_less_slack(stage: Stage, path: Seq<char>, child: Seq<char>)
    requires
        children_of(stage, path).len() > 0,
        child.len() > path.len(),
    ensures
        slack(stage, child) < slack(stage, path),
{
    found_paths_are_bounded(stage.prims@, path);
}

/// The prims at and below `path`, each before its children, when `base`
/// entries come before them.
pub open spec fn subtree(stage: Stage, path: Seq<char>, parent: Option<usize>, base: nat) -> Seq<
    NodeView,
>
    decreases slack(stage, path), 1int, 0nat,
{
    seq![NodeView { parent, path }] + below(
        stage,
        path,
        base,
        children_of(stage, path).len(),
    )
}

/// The prims below `path`, which is entry `me`, through its first `count`
/// children.
pub open spec fn below(stage: Stage, path: Seq<char>, me: nat, count: nat) -> Seq<NodeView>
    decreases slack(stage, path), 0int, count,
    via below_terminates
{
    if count == 0 || count > children_of(stage, path).len() {
        Seq::empty()
    } else {
        let rest = below(stage, path, me, (count - 1) as nat);
        match child_path(path, children_of(stage, path)[count - 1]) {
            Err(_) => rest,
            Ok(child) => if child.len() > path.len() {
                rest + subtree(stage, child, Some(me as usize), me + 1 + rest.len())
            } else {
                rest
            },
        }
    }
}

#[via_fn]
proof fn below_terminates(stage: Stage, path: Seq<char>, me: nat, count: nat) {
    if !(count == 0 || count > children_of(stage, path).len()) {
        if let Ok(child) = child_path(path, children_of(stage, path)[count - 1]) {
            if child.len() > path.len() {
                children_have_less_slack(stage, path, child);
            }
        }
    }
}

/// Appends the prims at and below `path`, each before its children.
fn bake_prototype_node(
    stage: &Stage,
    path: &str,
    parent: Option<usize>,
    nodes: &mut Vec<PrototypeNode>,
)
    ensures
        node_views(final(nodes)@) == node_views(old(nodes)@) + subtree(
            *stage,
            path@,
            parent,
            old(nodes)@.len(),
        ),
    decreases slack(*stage, path@), 1int,
{
    let ghost before = node_views(nodes@);
    let me: usize = nodes.len();
    nodes.push(PrototypeNode { parent, path: copy(path) });
    let ghost own = seq![NodeView { parent, path: path@ }];
    assert(node_views(nodes@) =~= before + own);
    let names = match stage.prim(path) {
        Some(p) => copy_all(&p.child_names),
        None => {
            let none: Vec<String> = Vec::new();
            assert(views(none@) =~= Seq::<Seq<char>>::empty());
            none
        },
    };
    let ghost children = children_of(*stage, path@);
    assert(views(names@) == children);
    assert(children.len() == names@.len());
    assert(before + own + below(*stage, path@, me as nat, 0) =~= before + own);
    for i in 0..names.len()
        invariant
            views(names@) == children,
            children == children_of(*stage, path@),
            children.len() == names@.len(),
            me == before.len(),
            own.len() == 1,
            node_views(nodes@) == before + own + below(*stage, path@, me as nat, i as nat),
    {
        assert(children[i as int] == names@[i as int]@);
        let ghost sofar = below(*stage, path@, me as nat, i as nat);
        assert(node_views(nodes@).len() == nodes@.len());
        match append_path(path, names[i].as_str()) {
            Err(_) => {},
            Ok(child) => {
                if child.as_str().unicode_len() > path.unicode_len() {
                    proof {
                        children_have_less_slack(*stage, path@, child@);
                    }
                    bake_prototype_node(stage, child.as_str(), Some(me), nodes);
                    assert(node_views(nodes@) =~= before + own + below(
                        *stage,
                        path@,
                        me as nat,
                        i as nat + 1,
                    ));
                }
            },
        }
    }
    assert(node_views(nodes@) =~= before + subtree(*stage, path@, parent, me as nat));
}

/// The prims of a prototype subtree, each before its children.
pub fn prototype_nodes(stage: &Stage, path: &str) -> (r: Vec<PrototypeNode>)
    ensures
        node_views(r@) == subtree(*stage, path@, None, 0),
{
    let mut nodes: Vec<PrototypeNode> = Vec::new();
    bake_prototype_node(stage, path, None, &mut nodes);
    assert(node_views(nodes@) =~= subtree(*stage, path@, None, 0));
    nodes
}

/// Some node of the prototype is one of the meshes.
pub open spec fn has_geometry(nodes: Seq<NodeView>, meshes: Seq<Seq<char>>) -> bool {
    exists|i: int| 0 <= i < nodes.len() && meshes.contains((#[trigger] nodes[i]).path)
}

/// The prims of the prototype at `index`; `None` where there is no such
/// prototype or none of its prims is in `meshes`.
pub fn bake_prototype(
    stage: &Stage,
    read: &ReadPointInstancer,
    index: usize,
    meshes: &Vec<String>,
) -> (r: Option<Vec<PrototypeNode>>)
    ensures
        index >= read.prototypes@.len() ==> r is None,
        index < read.prototypes@.len() ==> ({
            let nodes = subtree(*stage, read.prototypes@[index as int]@, None, 0);
            if has_geometry(nodes, views(meshes@)) {
                r matches Some(list) && node_views(list@) == nodes
            } else {
                r is None
            }
        }),
{
    if index >= read.prototypes.len() {
        return None;
    }
    let nodes = prototype_nodes(stage, read.prototypes[index].as_str());
    let ghost all = node_views(nodes@);
    for i in 0..nodes.len()
        invariant
            all == node_views(nodes@),
            index < read.prototypes@.len(),
            all == subtree(*stage, read.prototypes@[index as int]@, None, 0),
            forall|k: int|
                0 <= k < i ==> !views(meshes@).contains((#[trigger] all[k]).path),
    {
        assert(all[i as int].path == nodes@[i as int].path@);
        for k in 0..meshes.len()
            invariant
                i < nodes@.len(),
                forall|q: int|
                    0 <= q < k ==> (#[trigger] views(meshes@)[q]) != nodes@[i as int].path@,
                all == node_views(nodes@),
                index < read.prototypes@.len(),
                all == subtree(*stage, read.prototypes@[index as int]@, None, 0),
                all[i as int].path == nodes@[i as int].path@,
        {
            if str_eq(meshes[k].as_str(), nodes[i].path.as_str()) {
                assert(views(meshes@)[k as int] == all[i as int].path);
                assert(views(meshes@).contains(all[i as int].path));
                assert(has_geometry(all, views(meshes@)));
                return Some(nodes);
            }
        }
        assert(views(meshes@).len() == meshes@.len());
    }
    None
}

/// Every node but the first has a parent among the nodes before it.
pub open spec fn parents_first(nodes: Seq<NodeView>, base: nat) -> bool {
    forall|i: int|
        0 < i < nodes.len() ==> ((#[trigger] nodes[i]).parent matches Some(p) && base <= p < base
            + i)
}

proof fn subtree_parents(stage: Stage, path: Seq<char>, parent: Option<usize>, base: nat)
    requires
        base + subtree(stage, path, parent, base).len() <= usize::MAX,
    ensures
        parents_first(subtree(stage, path, parent, base), base),
        subtree(stage, path, parent, base).len() > 0,
        subtree(stage, path, parent, base)[0] == (NodeView { parent, path }),
    decreases slack(stage, path), 1int, 0nat,
{
    below_parents(stage, path, base, children_of(stage, path).len());
    let rest = below(stage, path, base, children_of(stage, path).len());
    let all = subtree(stage, path, parent, base);
    assert forall|i: int| 0 < i < all.len() implies ((#[trigger] all[i]).parent matches Some(p)
        && base <= p < base + i) by {
        assert(all[i] == rest[i - 1]);
    }
}

proof fn below_parents(stage: Stage, path: Seq<char>, me: nat, count: nat)
    requires
        me + 1 + below(stage, path, me, count).len() <= usize::MAX,
    ensures
        forall|i: int|
            0 <= i < below(stage, path, me, count).len() ==> ((#[trigger] below(
                stage,
                path,
                me,
                count,
            )[i]).parent matches Some(p) && me <= p < me + 1 + i),
    decreases slack(stage, path), 0int, count,
{
    if !(count == 0 || count > children_of(stage, path).len()) {
        let rest = below(stage, path, me, (count - 1) as nat);
        let all = below(stage, path, me, count);
        match child_path(path, children_of(stage, path)[count - 1]) {
            Err(_) => {
                below_parents(stage, path, me, (count - 1) as nat);
            },
            Ok(child) => {
                if child.len() > path.len() {
                    children_have_less_slack(stage, path, child);
                    let added = subtree(stage, child, Some(me as usize), me + 1 + rest.len());
                    assert(all == rest + added);
                    below_parents(stage, path, me, (count - 1) as nat);
                    subtree_parents(stage, child, Some(me as usize), me + 1 + rest.len());
                    assert forall|i: int| 0 <= i < all.len() implies (
                    (#[trigger] all[i]).parent matches Some(p) && me <= p < me + 1 + i) by {
                        if i < rest.len() {
                            assert(all[i] == rest[i]);
                        } else {
                            assert(all[i] == added[i - rest.len()]);
                        }
                    }
                } else {
                    below_parents(stage, path, me, (count - 1) as nat);
                }
            },
        }
    }
}

/// In a baked prototype every prim comes after its parent, so that one pass
/// can build the subtree; only the root has none.
pub proof fn prototypes_list_parents_first(stage: Stage, path: Seq<char>)
    requires
        subtree(stage, path, None, 0).len() <= usize::MAX,
    ensures
        parents_first(subtree(stage, path, None, 0), 0),
        subtree(stage, path, None, 0)[0] == (NodeView { parent: None, path }),
{
    subtree_parents(stage, path, None, 0);
}

/// `list` with `item`, unless it is there.
pub open spec fn with_prototype(list: Seq<usize>, item: Option<usize>) -> Seq<usize> {
    match item {
        Some(p) => if list.contains(p) {
            list
        } else {
            list.push(p)
        },
        None => list,
    }
}

/// The prototypes that the first `count` instances use, in order of first use.
pub open spec fn used_prototypes(instances: Seq<Instance>, count: nat) -> Seq<usize>
    decreases count,
{
    if count == 0 {
        Seq::empty()
    } else {
        with_prototype(
            used_prototypes(instances, (count - 1) as nat),
            instances[count - 1].prototype,
        )
    }
}

/// The prototypes to bake: each that an instance uses, once.
pub fn prototypes_to_bake(instances: &Vec<Instance>) -> (r: Vec<usize>)
    ensures
        r@ == used_prototypes(instances@, instances@.len()),
{
    let mut out: Vec<usize> = Vec::new();
    for i in 0..instances.len()
        invariant
            out@ == used_prototypes(instances@, i as nat),
    {
        if let Some(p) = instances[i].prototype {
            let mut known = false;
            let n: usize = out.len();
            for k in 0..n
                invariant
                    n == out@.len(),
                    known == (exists|q: int| 0 <= q < k && #[trigger] out@[q] == p),
            {
                if out[k] == p {
                    known = true;
                }
            }
            if !known {
                out.push(p);
            }
        }
    }
    out
}

/// No prototype is baked twice, and every used one is baked.
pub proof fn prototypes_are_baked_once(instances: Seq<Instance>, count: nat)
    requires
        count <= instances.len(),
    ensures
        used_prototypes(instances, count).no_duplicates(),
        forall|i: int|
            0 <= i < count ==> ((#[trigger] instances[i]).prototype matches Some(p)
                ==> used_prototypes(instances, count).contains(p)),
    decreases count,
{
    if count > 0 {
        let before = (count - 1) as nat;
        prototypes_are_baked_once(instances, before);
        let rest = used_prototypes(instances, before);
        let all = used_prototypes(instances, count);
        assert forall|i: int| 0 <= i < count implies ((#[trigger] instances[i]).prototype matches Some(p)
            ==> all.contains(p)) by {
            if let Some(p) = instances[i].prototype {
                if i < before {
                    assert(rest.contains(p));
                    let k = choose|k: int| 0 <= k < rest.len() && rest[k] == p;
                    assert(all[k] == p);
                } else if !rest.contains(p) {
                    assert(all[rest.len() as int] == p);
                }
            }
        }
    }
}

/// Whether a prim of a prototype is hidden.
pub fn prototype_visibility(stage: &Stage, path: &str, purposes: DisplayPurposes) -> (r: bool)
    requires
        braces_open_first(path@),
    ensures
        r == undrawn(*stage, path@, purposes),
{
    super::geom::resolve(stage, path, purposes, false).0
}

/// A prim belongs to a prototype of one of the first `count` prims: it is or
/// lies below a prototype of a point instancer.
pub open spec fn is_source(stage: Stage, path: Seq<char>, count: nat) -> bool {
    exists|i: int, k: int|
        0 <= i < count && instances_prototype(stage, path, stage.prims@[i].path@, k)
}

/// The prim at `instancer` is a point instancer, and `path` is or lies below
/// its prototype at `index`.
pub open spec fn instances_prototype(
    stage: Stage,
    path: Seq<char>,
    instancer: Seq<char>,
    index: int,
) -> bool {
    let list = targets_of(stage, instancer, "prototypes"@);
    stage.type_of(instancer) == Ok::<Option<Seq<char>>, Seq<char>>(Some("PointInstancer"@)) && 0
        <= index < list.len() && is_under(path, list[index])
}

/// Whether a prim is source data of a point instancer.
pub fn is_prototype_source(stage: &Stage, path: &str) -> (r: bool)
    ensures
        r == is_source(*stage, path@, stage.prims@.len()),
{
    for i in 0..stage.prims.len()
        invariant
            !is_source(*stage, path@, i as nat),
    {
        let instancer = stage.prims[i].path.as_str();
        if let Some(read) = read_point_instancer(stage, instancer) {
            let ghost list = targets_of(*stage, instancer@, "prototypes"@);
            assert(views(read.prototypes@) == list);
            for k in 0..read.prototypes.len()
                invariant
                    i < stage.prims@.len(),
                    instancer@ == stage.prims@[i as int].path@,
                    list == targets_of(*stage, instancer@, "prototypes"@),
                    views(read.prototypes@) == list,
                    stage.type_of(instancer@) == Ok::<Option<Seq<char>>, Seq<char>>(
                        Some("PointInstancer"@),
                    ),
                    forall|q: int|
                        0 <= q < k ==> !#[trigger] instances_prototype(
                            *stage,
                            path@,
                            instancer@,
                            q,
                        ),
            {
                assert(list[k as int] == read.prototypes@[k as int]@);
                if lies_under(path, read.prototypes[k].as_str()) {
                    assert(instances_prototype(*stage, path@, instancer@, k as int));
                    return true;
                }
            }
            assert(list.len() == read.prototypes@.len());
        }
        assert(forall|k: int| !instances_prototype(*stage, path@, instancer@, k));
    }
    false
}

} // verus!
