//! UsdSkel readers: `Skeleton`, `SkelRoot`, `SkelBindingAPI`, `BlendShape` and
//! `SkelAnimation`.

use super::skel_anim_text::{
    frame_views, insert_frame, ordered_times, with_frame, Frame, FrameView, ReadSkelAnimText,
};
use super::util::{
    as_ints, as_numbers, as_texts, as_triples, copy_items, first_error, first_of, first_problem,
    first_target_at, has_type, ints_at, numbers_at, or_empty, probe_views, targets_at, targets_of,
    texts_at, triples_at,
};
use crate::float::is_nan64;
use crate::stage::{Quad, Sample, Scalar, Stage, Triple, Value};
use crate::text::{after_last, copy, last_place, opt_view, str_eq, views};
use vstd::prelude::*;

verus! {

#[derive(Debug)]
pub struct ReadSkeleton {
    pub path: String,
    pub joints: Vec<String>,
    pub bind_transforms: Vec<Vec<u64>>,
    pub rest_transforms: Vec<Vec<u64>>,
}

#[derive(Debug, Clone)]
pub struct ReadSkelRoot {
    pub path: String,
    pub skeleton: Option<String>,
    pub animation_source: Option<String>,
}

#[derive(Debug)]
pub struct ReadBlendShape {
    pub path: String,
    pub offsets: Vec<Triple>,
    pub normal_offsets: Vec<Triple>,
    pub point_indices: Vec<i32>,
}

#[derive(Debug)]
pub struct ReadSkelBinding {
    pub prim_path: String,
    pub skeleton: Option<String>,
    pub joint_indices: Vec<i32>,
    pub joint_weights: Vec<Scalar>,
    pub elements_per_vertex: i32,
    pub joint_subset: Vec<String>,
    pub blend_shapes: Vec<String>,
    pub blend_shape_targets: Vec<String>,
}

/// The last place of `item` in the list, if it is there.
pub open spec fn last_index(list: Seq<Seq<char>>, item: Seq<char>) -> Option<int>
    decreases list.len(),
{
    if list.len() == 0 {
        None
    } else if list.last() == item {
        Some(list.len() - 1)
    } else {
        last_index(list.drop_last(), item)
    }
}

/// The parent of a joint path: the joint named before its last slash.
pub open spec fn joint_parent(joints: Seq<Seq<char>>, joint: Seq<char>) -> Option<int> {
    if last_place(joint, '/') < 0 {
        None
    } else {
        last_index(joints, joint.take(last_place(joint, '/')))
    }
}

/// What follows the last slash, or the whole text.
pub open spec fn short_name(path: Seq<char>) -> Seq<char> {
    path.skip(last_place(path, '/') + 1)
}

fn position(list: &Vec<String>, item: &str) -> (r: Option<usize>)
    ensures
        match r {
            Some(i) => last_index(views(list@), item@) == Some(i as int) && i < list@.len(),
            None => last_index(views(list@), item@) is None,
        },
{
    let ghost all = views(list@);
    let mut i: usize = list.len();
    assert(all.take(i as int) =~= all);
    while i > 0
        invariant
            i <= list@.len(),
            all == views(list@),
            last_index(all, item@) == last_index(all.take(i as int), item@),
        decreases i,
    {
        assert(all.take(i as int).last() == list@[i - 1]@);
        assert(all.take(i as int).drop_last() =~= all.take(i - 1));
        if str_eq(list[i - 1].as_str(), item) {
            return Some(i - 1);
        }
        i = i - 1;
    }
    None
}

/// What follows the last slash, or the whole text.
pub fn leaf(path: &str) -> (r: String)
    ensures
        r@ == short_name(path@),
{
    let from: usize = after_last(path, '/');
    let n: usize = path.unicode_len();
    let out = path.substring_char(from, n).to_owned();
    assert(out@ =~= short_name(path@));
    out
}

impl ReadSkeleton {
    /// The index of each joint's parent joint.
    pub fn joint_parent_indices(&self) -> (r: Vec<Option<usize>>)
        ensures
            r@.len() == self.joints@.len(),
            forall|i: int|
                0 <= i < r@.len() ==> match #[trigger] r@[i] {
                    Some(p) => joint_parent(views(self.joints@), self.joints@[i]@) == Some(
                        p as int,
                    ) && p < self.joints@.len(),
                    None => joint_parent(views(self.joints@), self.joints@[i]@) is None,
                },
    {
        let mut out: Vec<Option<usize>> = Vec::new();
        for i in 0..self.joints.len()
            invariant
                out@.len() == i,
                forall|k: int|
                    0 <= k < i ==> match #[trigger] out@[k] {
                        Some(p) => joint_parent(views(self.joints@), self.joints@[k]@) == Some(
                            p as int,
                        ) && p < self.joints@.len(),
                        None => joint_parent(views(self.joints@), self.joints@[k]@) is None,
                    },
        {
            let joint = self.joints[i].as_str();
            let from: usize = after_last(joint, '/');
            let parent: Option<usize> = if from == 0 {
                None
            } else {
                let above = joint.substring_char(0, from - 1).to_owned();
                assert(above@ =~= joint@.take(last_place(joint@, '/')));
                position(&self.joints, above.as_str())
            };
            out.push(parent);
        }
        out
    }

    /// The last element of each joint path.
    pub fn joint_short_names(&self) -> (r: Vec<String>)
        ensures
            r@.len() == self.joints@.len(),
            forall|i: int|
                0 <= i < r@.len() ==> (#[trigger] r@[i])@ == short_name(self.joints@[i]@),
    {
        let mut out: Vec<String> = Vec::new();
        for i in 0..self.joints.len()
            invariant
                out@.len() == i,
                forall|k: int|
                    0 <= k < i ==> (#[trigger] out@[k])@ == short_name(self.joints@[k]@),
        {
            out.push(leaf(self.joints[i].as_str()));
        }
        out
    }
}

proof fn found_items_match(list: Seq<Seq<char>>, item: Seq<char>)
    ensures
        last_index(list, item) matches Some(i) ==> 0 <= i < list.len() && list[i] == item,
    decreases list.len(),
{
    if list.len() > 0 && list.last() != item {
        found_items_match(list.drop_last(), item);
    }
}

/// The parent of a joint is a joint of the skeleton, its path is a proper
/// prefix of the joint's, and so no joint is its own parent.
pub proof fn joint_parents_are_above(joints: Seq<Seq<char>>, i: int)
    requires
        0 <= i < joints.len(),
    ensures
        joint_parent(joints, joints[i]) matches Some(p) ==> 0 <= p < joints.len() && p != i
            && joints[p].len() < joints[i].len() && joints[p].is_prefix_of(joints[i]),
{
    let slash = last_place(joints[i], '/');
    last_place_is_inside(joints[i], '/');
    if slash >= 0 {
        found_items_match(joints, joints[i].take(slash));
    }
}

proof fn last_place_is_inside(text: Seq<char>, c: char)
    ensures
        -1 <= last_place(text, c) < text.len() as int,
    decreases text.len(),
{
    if text.len() > 0 {
        last_place_is_inside(text.drop_last(), c);
    }
}

/// The matrices in a property.
pub open spec fn matrices_of(stage: Stage, prim: Seq<char>, name: Seq<char>) -> Seq<Seq<u64>> {
    match stage.value_of(prim, name) {
        Some(Value::Matrix4dVec(v)) => matrix_views(v@),
        _ => Seq::empty(),
    }
}

/// Matrices, as sequences of doubles.
pub open spec fn matrix_views(list: Seq<Vec<u64>>) -> Seq<Seq<u64>> {
    list.map_values(|m: Vec<u64>| m@)
}

fn matrices_at(stage: &Stage, prim: &str, name: &str) -> (r: Vec<Vec<u64>>)
    ensures
        matrix_views(r@) == matrices_of(*stage, prim@, name@),
{
    let mut out: Vec<Vec<u64>> = Vec::new();
    match stage.value(prim, name) {
        Some(Value::Matrix4dVec(v)) => {
            for i in 0..v.len()
                invariant
                    out@.len() == i,
                    forall|k: int| 0 <= k < i ==> (#[trigger] out@[k])@ == v@[k]@,
            {
                out.push(copy_items(&v[i]));
            }
            assert(matrix_views(out@) =~= matrix_views(v@));
        },
        _ => {
            assert(matrix_views(out@) =~= Seq::<Seq<u64>>::empty());
        },
    }
    out
}

/// The properties of a skeleton after its joints, in the order they are read.
pub open spec fn skeleton_properties() -> Seq<(bool, Seq<char>)> {
    seq![(false, "bindTransforms"@), (false, "restTransforms"@)]
}

/// The skeleton at `prim`; `None` for a prim of another type or without joints.
pub fn read_skeleton(stage: &Stage, prim: &str) -> (r: Result<Option<ReadSkeleton>, String>)
    ensures
        match stage.type_of(prim@) {
            Err(e) => r matches Err(text) && text@ == e,
            Ok(kind) => if kind != Some("Skeleton"@) {
                r == Ok::<Option<ReadSkeleton>, String>(None)
            } else {
                match stage.default_value(prim@, "joints"@) {
                    Err(e) => r matches Err(text) && text@ == e,
                    Ok(_) => if as_texts(stage.value_of(prim@, "joints"@)).len() == 0 {
                        r == Ok::<Option<ReadSkeleton>, String>(None)
                    } else {
                        match first_problem(*stage, prim@, skeleton_properties()) {
                            Some(e) => r matches Err(text) && text@ == e,
                            None => r matches Ok(Some(s)) && s.path@ == prim@ && views(s.joints@)
                                == as_texts(stage.value_of(prim@, "joints"@)) && matrix_views(
                                s.bind_transforms@,
                            ) == matrices_of(*stage, prim@, "bindTransforms"@) && matrix_views(
                                s.rest_transforms@,
                            ) == matrices_of(*stage, prim@, "restTransforms"@),
                        }
                    },
                }
            },
        },
{
    match has_type(stage, prim, "Skeleton") {
        Err(e) => return Err(e),
        Ok(false) => return Ok(None),
        Ok(true) => {},
    }
    let joints = match super::util::read_token_vec(stage, prim, "joints") {
        Err(e) => return Err(e),
        Ok(joints) => joints,
    };
    assert(views(joints@).len() == joints@.len());
    if joints.len() == 0 {
        return Ok(None);
    }
    let properties = vec![(false, "bindTransforms"), (false, "restTransforms")];
    assert(probe_views(properties@) =~= skeleton_properties());
    if let Some(e) = first_error(stage, prim, &properties) {
        return Err(e);
    }
    Ok(
        Some(
            ReadSkeleton {
                path: copy(prim),
                joints,
                bind_transforms: matrices_at(stage, prim, "bindTransforms"),
                rest_transforms: matrices_at(stage, prim, "restTransforms"),
            },
        ),
    )
}

/// The skeleton root at `prim`; `None` for a prim of another type.
pub fn read_skel_root(stage: &Stage, prim: &str) -> (r: Result<Option<ReadSkelRoot>, String>)
    ensures
        match stage.type_of(prim@) {
            Err(e) => r matches Err(text) && text@ == e,
            Ok(kind) => if kind != Some("SkelRoot"@) {
                r == Ok::<Option<ReadSkelRoot>, String>(None)
            } else {
                match first_problem(
                    *stage,
                    prim@,
                    seq![(true, "skel:skeleton"@), (true, "skel:animationSource"@)],
                ) {
                    Some(e) => r matches Err(text) && text@ == e,
                    None => r matches Ok(Some(s)) && s.path@ == prim@ && opt_view(s.skeleton)
                        == first_of(targets_of(*stage, prim@, "skel:skeleton"@)) && opt_view(
                        s.animation_source,
                    ) == first_of(targets_of(*stage, prim@, "skel:animationSource"@)),
                }
            },
        },
{
    match has_type(stage, prim, "SkelRoot") {
        Err(e) => return Err(e),
        Ok(false) => return Ok(None),
        Ok(true) => {},
    }
    let properties = vec![(true, "skel:skeleton"), (true, "skel:animationSource")];
    assert(probe_views(properties@) =~= seq![
        (true, "skel:skeleton"@),
        (true, "skel:animationSource"@),
    ]);
    if let Some(e) = first_error(stage, prim, &properties) {
        return Err(e);
    }
    Ok(
        Some(
            ReadSkelRoot {
                path: copy(prim),
                skeleton: first_target_at(stage, prim, "skel:skeleton"),
                animation_source: first_target_at(stage, prim, "skel:animationSource"),
            },
        ),
    )
}

/// The element size that an attribute's metadata gives.
pub open spec fn element_size_of(stage: Stage, prim: Seq<char>, name: Seq<char>) -> Result<
    Option<i32>,
    Seq<char>,
> {
    match stage.attribute_of(prim, name) {
        None => Ok(None),
        Some(a) => match a.element_size {
            Ok(n) => Ok(n),
            Err(e) => Err(e@),
        },
    }
}

/// The error of reading a skeleton binding's weights and the rest, after its
/// joint indices.
pub open spec fn binding_tail_problem(stage: Stage, prim: Seq<char>) -> Option<Seq<char>> {
    match first_problem(stage, prim, seq![(true, "skel:skeleton"@)]) {
        Some(e) => Some(e),
        None => match element_size_of(stage, prim, "primvars:skel:jointIndices"@) {
            Err(e) => Some(e),
            Ok(_) => first_problem(
                stage,
                prim,
                seq![
                    (false, "skel:joints"@),
                    (false, "skel:blendShapes"@),
                    (true, "skel:blendShapeTargets"@),
                ],
            ),
        },
    }
}

/// The record holds what the properties decode to.
pub open spec fn binding_decodes(stage: Stage, prim: Seq<char>, b: ReadSkelBinding) -> bool {
    &&& b.prim_path@ == prim
    &&& opt_view(b.skeleton) == first_of(targets_of(stage, prim, "skel:skeleton"@))
    &&& as_ints(stage.value_of(prim, "primvars:skel:jointIndices"@)) == Some(b.joint_indices@)
    &&& as_numbers(stage.value_of(prim, "primvars:skel:jointWeights"@)) == Some(b.joint_weights@)
    &&& b.elements_per_vertex == (match element_size_of(
        stage,
        prim,
        "primvars:skel:jointIndices"@,
    ) {
        Ok(Some(n)) => n,
        _ => 1,
    })
    &&& views(b.joint_subset@) == as_texts(stage.value_of(prim, "skel:joints"@))
    &&& views(b.blend_shapes@) == as_texts(stage.value_of(prim, "skel:blendShapes"@))
    &&& views(b.blend_shape_targets@) == targets_of(stage, prim, "skel:blendShapeTargets"@)
}

/// The skeleton binding of `prim`; `None` without joint indices or weights.
pub fn read_skel_binding(stage: &Stage, prim: &str) -> (r: Result<Option<ReadSkelBinding>, String>)
    ensures
        match stage.default_value(prim@, "primvars:skel:jointIndices"@) {
            Err(e) => r matches Err(text) && text@ == e,
            Ok(_) => if as_ints(stage.value_of(prim@, "primvars:skel:jointIndices"@)) is None {
                r == Ok::<Option<ReadSkelBinding>, String>(None)
            } else {
                match stage.default_value(prim@, "primvars:skel:jointWeights"@) {
                    Err(e) => r matches Err(text) && text@ == e,
                    Ok(_) => if as_numbers(
                        stage.value_of(prim@, "primvars:skel:jointWeights"@),
                    ) is None {
                        r == Ok::<Option<ReadSkelBinding>, String>(None)
                    } else {
                        match binding_tail_problem(*stage, prim@) {
                            Some(e) => r matches Err(text) && text@ == e,
                            None => r matches Ok(Some(b)) && binding_decodes(*stage, prim@, b),
                        }
                    },
                }
            },
        },
{
    if let Some(found) = stage.attribute(prim, "primvars:skel:jointIndices") {
        if let Err(e) = &found.at_default {
            return Err(copy(e.as_str()));
        }
    }
    let joint_indices = match ints_at(stage, prim, "primvars:skel:jointIndices") {
        Some(v) => v,
        None => return Ok(None),
    };
    if let Some(found) = stage.attribute(prim, "primvars:skel:jointWeights") {
        if let Err(e) = &found.at_default {
            return Err(copy(e.as_str()));
        }
    }
    let joint_weights = match numbers_at(stage, prim, "primvars:skel:jointWeights") {
        Some(v) => v,
        None => return Ok(None),
    };
    let first = vec![(true, "skel:skeleton")];
    assert(probe_views(first@) =~= seq![(true, "skel:skeleton"@)]);
    if let Some(e) = first_error(stage, prim, &first) {
        return Err(e);
    }
    let mut elements_per_vertex: i32 = 1;
    if let Some(found) = stage.attribute(prim, "primvars:skel:jointIndices") {
        match &found.element_size {
            Err(e) => return Err(copy(e.as_str())),
            Ok(Some(n)) => {
                elements_per_vertex = *n;
            },
            Ok(None) => {},
        }
    }
    let rest = vec![
        (false, "skel:joints"),
        (false, "skel:blendShapes"),
        (true, "skel:blendShapeTargets"),
    ];
    assert(probe_views(rest@) =~= seq![
        (false, "skel:joints"@),
        (false, "skel:blendShapes"@),
        (true, "skel:blendShapeTargets"@),
    ]);
    if let Some(e) = first_error(stage, prim, &rest) {
        return Err(e);
    }
    Ok(
        Some(
            ReadSkelBinding {
                prim_path: copy(prim),
                skeleton: first_target_at(stage, prim, "skel:skeleton"),
                joint_indices,
                joint_weights,
                elements_per_vertex,
                joint_subset: texts_at(stage, prim, "skel:joints"),
                blend_shapes: texts_at(stage, prim, "skel:blendShapes"),
                blend_shape_targets: targets_at(stage, prim, "skel:blendShapeTargets"),
            },
        ),
    )
}

/// The blend shape at `prim`; `None` for a prim of another type or without
/// offsets.
pub fn read_blend_shape(stage: &Stage, prim: &str) -> (r: Result<Option<ReadBlendShape>, String>)
    ensures
        match stage.type_of(prim@) {
            Err(e) => r matches Err(text) && text@ == e,
            Ok(kind) => if kind != Some("BlendShape"@) {
                r == Ok::<Option<ReadBlendShape>, String>(None)
            } else {
                match stage.default_value(prim@, "offsets"@) {
                    Err(e) => r matches Err(text) && text@ == e,
                    Ok(_) => if as_triples(stage.value_of(prim@, "offsets"@)).len() == 0 {
                        r == Ok::<Option<ReadBlendShape>, String>(None)
                    } else {
                        match first_problem(
                            *stage,
                            prim@,
                            seq![(false, "normalOffsets"@), (false, "pointIndices"@)],
                        ) {
                            Some(e) => r matches Err(text) && text@ == e,
                            None => r matches Ok(Some(s)) && s.path@ == prim@ && s.offsets@
                                == as_triples(stage.value_of(prim@, "offsets"@))
                                && s.normal_offsets@ == as_triples(
                                stage.value_of(prim@, "normalOffsets"@),
                            ) && s.point_indices@ == or_empty(
                                as_ints(stage.value_of(prim@, "pointIndices"@)),
                            ),
                        }
                    },
                }
            },
        },
{
    match has_type(stage, prim, "BlendShape") {
        Err(e) => return Err(e),
        Ok(false) => return Ok(None),
        Ok(true) => {},
    }
    let offsets = match super::util::read_vec3f_vec(stage, prim, "offsets") {
        Err(e) => return Err(e),
        Ok(offsets) => offsets,
    };
    if offsets.len() == 0 {
        return Ok(None);
    }
    let properties = vec![(false, "normalOffsets"), (false, "pointIndices")];
    assert(probe_views(properties@) =~= seq![(false, "normalOffsets"@), (false, "pointIndices"@)]);
    if let Some(e) = first_error(stage, prim, &properties) {
        return Err(e);
    }
    let point_indices = match ints_at(stage, prim, "pointIndices") {
        Some(v) => v,
        None => {
            let none: Vec<i32> = Vec::new();
            assert(none@ =~= Seq::<i32>::empty());
            none
        },
    };
    Ok(
        Some(
            ReadBlendShape {
                path: copy(prim),
                offsets,
                normal_offsets: triples_at(stage, prim, "normalOffsets"),
                point_indices,
            },
        ),
    )
}

/// The time samples of an attribute; an absent attribute has none.
pub open spec fn samples_of(stage: Stage, prim: Seq<char>, name: Seq<char>) -> Result<
    Seq<Sample>,
    Seq<char>,
> {
    match stage.attribute_of(prim, name) {
        None => Ok(Seq::empty()),
        Some(a) => match a.samples {
            Ok(list) => Ok(list@),
            Err(e) => Err(e@),
        },
    }
}

/// Triples of any float width.
pub open spec fn sample_triples(value: Value) -> Option<Seq<Triple>> {
    match value {
        Value::Vec3fVec(v) => Some(v@),
        Value::Vec3dVec(v) => Some(v@),
        Value::Vec3hVec(v) => Some(v@),
        _ => None,
    }
}

/// Quaternions of any float width.
pub open spec fn sample_quads(value: Value) -> Option<Seq<Quad>> {
    match value {
        Value::QuatfVec(v) => Some(v@),
        Value::QuatdVec(v) => Some(v@),
        Value::QuathVec(v) => Some(v@),
        _ => None,
    }
}

/// Floats.
pub open spec fn sample_floats(value: Value) -> Option<Seq<u32>> {
    match value {
        Value::FloatVec(v) => Some(v@),
        _ => None,
    }
}

/// The track of the first `count` samples that decode to triples.
pub open spec fn triple_track(samples: Seq<Sample>, count: nat) -> Seq<FrameView<Triple>>
    decreases count,
{
    if count == 0 {
        Seq::empty()
    } else {
        let sofar = triple_track(samples, (count - 1) as nat);
        match sample_triples(samples[count - 1].value) {
            Some(items) => with_frame(sofar, samples[count - 1].time, items),
            None => sofar,
        }
    }
}

/// The track of the first `count` samples that decode to quaternions.
pub open spec fn quad_track(samples: Seq<Sample>, count: nat) -> Seq<FrameView<Quad>>
    decreases count,
{
    if count == 0 {
        Seq::empty()
    } else {
        let sofar = quad_track(samples, (count - 1) as nat);
        match sample_quads(samples[count - 1].value) {
            Some(items) => with_frame(sofar, samples[count - 1].time, items),
            None => sofar,
        }
    }
}

/// The track of the first `count` samples that decode to floats.
pub open spec fn float_track(samples: Seq<Sample>, count: nat) -> Seq<FrameView<u32>>
    decreases count,
{
    if count == 0 {
        Seq::empty()
    } else {
        let sofar = float_track(samples, (count - 1) as nat);
        match sample_floats(samples[count - 1].value) {
            Some(items) => with_frame(sofar, samples[count - 1].time, items),
            None => sofar,
        }
    }
}

/// Every sample of the attribute has a time that is a number.
pub open spec fn times_are_numbers(stage: Stage, prim: Seq<char>, name: Seq<char>) -> bool {
    samples_of(stage, prim, name) matches Ok(list) ==> forall|i: int|
        0 <= i < list.len() ==> !is_nan64((#[trigger] list[i]).time)
}

fn triple_frames(samples: &Vec<Sample>) -> (r: Vec<Frame<Triple>>)
    requires
        forall|i: int| 0 <= i < samples@.len() ==> !is_nan64((#[trigger] samples@[i]).time),
    ensures
        frame_views(r@) == triple_track(samples@, samples@.len()),
{
    let mut out: Vec<Frame<Triple>> = Vec::new();
    assert(frame_views(out@) =~= Seq::<FrameView<Triple>>::empty());
    for i in 0..samples.len()
        invariant
            forall|i: int| 0 <= i < samples@.len() ==> !is_nan64((#[trigger] samples@[i]).time),
            frame_views(out@) == triple_track(samples@, i as nat),
            ordered_times(frame_views(out@)),
    {
        let time: u64 = samples[i].time;
        assert(!is_nan64(samples@[i as int].time));
        match &samples[i].value {
            Value::Vec3fVec(v) => insert_frame(&mut out, time, copy_items(v)),
            Value::Vec3dVec(v) => insert_frame(&mut out, time, copy_items(v)),
            Value::Vec3hVec(v) => insert_frame(&mut out, time, copy_items(v)),
            _ => {},
        }
    }
    out
}

fn quad_frames(samples: &Vec<Sample>) -> (r: Vec<Frame<Quad>>)
    requires
        forall|i: int| 0 <= i < samples@.len() ==> !is_nan64((#[trigger] samples@[i]).time),
    ensures
        frame_views(r@) == quad_track(samples@, samples@.len()),
{
    let mut out: Vec<Frame<Quad>> = Vec::new();
    assert(frame_views(out@) =~= Seq::<FrameView<Quad>>::empty());
    for i in 0..samples.len()
        invariant
            forall|i: int| 0 <= i < samples@.len() ==> !is_nan64((#[trigger] samples@[i]).time),
            frame_views(out@) == quad_track(samples@, i as nat),
            ordered_times(frame_views(out@)),
    {
        let time: u64 = samples[i].time;
        assert(!is_nan64(samples@[i as int].time));
        match &samples[i].value {
            Value::QuatfVec(v) => insert_frame(&mut out, time, copy_items(v)),
            Value::QuatdVec(v) => insert_frame(&mut out, time, copy_items(v)),
            Value::QuathVec(v) => insert_frame(&mut out, time, copy_items(v)),
            _ => {},
        }
    }
    out
}

fn float_frames(samples: &Vec<Sample>) -> (r: Vec<Frame<u32>>)
    requires
        forall|i: int| 0 <= i < samples@.len() ==> !is_nan64((#[trigger] samples@[i]).time),
    ensures
        frame_views(r@) == float_track(samples@, samples@.len()),
{
    let mut out: Vec<Frame<u32>> = Vec::new();
    assert(frame_views(out@) =~= Seq::<FrameView<u32>>::empty());
    for i in 0..samples.len()
        invariant
            forall|i: int| 0 <= i < samples@.len() ==> !is_nan64((#[trigger] samples@[i]).time),
            frame_views(out@) == float_track(samples@, i as nat),
            ordered_times(frame_views(out@)),
    {
        let time: u64 = samples[i].time;
        assert(!is_nan64(samples@[i as int].time));
        match &samples[i].value {
            Value::FloatVec(v) => insert_frame(&mut out, time, copy_items(v)),
            _ => {},
        }
    }
    out
}

/// The error of the first track that cannot be read.
pub open spec fn track_problem(stage: Stage, prim: Seq<char>) -> Option<Seq<char>> {
    match samples_of(stage, prim, "translations"@) {
        Err(e) => Some(e),
        Ok(_) => match samples_of(stage, prim, "rotations"@) {
            Err(e) => Some(e),
            Ok(_) => match samples_of(stage, prim, "scales"@) {
                Err(e) => Some(e),
                Ok(_) => match samples_of(stage, prim, "blendShapeWeights"@) {
                    Err(e) => Some(e),
                    Ok(_) => None,
                },
            },
        },
    }
}

/// The samples of an attribute, where they can be read.
pub open spec fn readable_samples(stage: Stage, prim: Seq<char>, name: Seq<char>) -> Seq<Sample> {
    match samples_of(stage, prim, name) {
        Ok(list) => list,
        Err(_) => Seq::empty(),
    }
}

/// The record holds what the animation prim decodes to.
pub open spec fn animation_decodes(stage: Stage, prim: Seq<char>, a: ReadSkelAnimText) -> bool {
    let translations = readable_samples(stage, prim, "translations"@);
    let rotations = readable_samples(stage, prim, "rotations"@);
    let scales = readable_samples(stage, prim, "scales"@);
    let weights = readable_samples(stage, prim, "blendShapeWeights"@);
    &&& a.prim_name@ == short_name(prim)
    &&& views(a.joints@) == as_texts(stage.value_of(prim, "joints"@))
    &&& views(a.blend_shapes@) == as_texts(stage.value_of(prim, "blendShapes"@))
    &&& frame_views(a.translations@) == triple_track(translations, translations.len())
    &&& frame_views(a.rotations@) == quad_track(rotations, rotations.len())
    &&& frame_views(a.scales@) == triple_track(scales, scales.len())
    &&& frame_views(a.blend_shape_weights@) == float_track(weights, weights.len())
}

fn sample_error(stage: &Stage, prim: &str, name: &str) -> (r: Option<String>)
    ensures
        match samples_of(*stage, prim@, name@) {
            Err(e) => r matches Some(text) && text@ == e,
            Ok(_) => r is None,
        },
{
    match stage.attribute(prim, name) {
        None => None,
        Some(found) => match &found.samples {
            Err(e) => Some(copy(e.as_str())),
            Ok(_) => None,
        },
    }
}

fn samples_at<'a>(stage: &'a Stage, prim: &str, name: &str) -> (r: Option<&'a Vec<Sample>>)
    ensures
        match r {
            Some(list) => list@ == readable_samples(*stage, prim@, name@),
            None => readable_samples(*stage, prim@, name@).len() == 0,
        },
{
    match stage.attribute(prim, name) {
        None => None,
        Some(found) => match &found.samples {
            Err(_) => None,
            Ok(list) => Some(list),
        },
    }
}

fn triple_frames_at(stage: &Stage, prim: &str, name: &str) -> (r: Vec<Frame<Triple>>)
    requires
        times_are_numbers(*stage, prim@, name@),
    ensures
        frame_views(r@) == triple_track(
            readable_samples(*stage, prim@, name@),
            readable_samples(*stage, prim@, name@).len(),
        ),
{
    match samples_at(stage, prim, name) {
        Some(list) => triple_frames(list),
        None => {
            let none: Vec<Frame<Triple>> = Vec::new();
            assert(frame_views(none@) =~= Seq::<FrameView<Triple>>::empty());
            none
        },
    }
}

/// Read a `UsdSkelAnimation` prim; `None` for a prim of another type or one
/// with neither joints nor blend shapes.
pub fn read_skel_animation_stage(stage: &Stage, prim: &str) -> (r: Result<
    Option<ReadSkelAnimText>,
    String,
>)
    requires
        times_are_numbers(*stage, prim@, "translations"@),
        times_are_numbers(*stage, prim@, "rotations"@),
        times_are_numbers(*stage, prim@, "scales"@),
        times_are_numbers(*stage, prim@, "blendShapeWeights"@),
    ensures
        match stage.type_of(prim@) {
            Err(e) => r matches Err(text) && text@ == e,
            Ok(kind) => if kind != Some("SkelAnimation"@) {
                r == Ok::<Option<ReadSkelAnimText>, String>(None)
            } else {
                match first_problem(
                    *stage,
                    prim@,
                    seq![(false, "joints"@), (false, "blendShapes"@)],
                ) {
                    Some(e) => r matches Err(text) && text@ == e,
                    None => if as_texts(stage.value_of(prim@, "joints"@)).len() == 0 && as_texts(
                        stage.value_of(prim@, "blendShapes"@),
                    ).len() == 0 {
                        r == Ok::<Option<ReadSkelAnimText>, String>(None)
                    } else {
                        match track_problem(*stage, prim@) {
                            Some(e) => r matches Err(text) && text@ == e,
                            None => r matches Ok(Some(a)) && animation_decodes(*stage, prim@, a),
                        }
                    },
                }
            },
        },
{
    match has_type(stage, prim, "SkelAnimation") {
        Err(e) => return Err(e),
        Ok(false) => return Ok(None),
        Ok(true) => {},
    }
    let properties = vec![(false, "joints"), (false, "blendShapes")];
    assert(probe_views(properties@) =~= seq![(false, "joints"@), (false, "blendShapes"@)]);
    if let Some(e) = first_error(stage, prim, &properties) {
        return Err(e);
    }
    let joints = texts_at(stage, prim, "joints");
    let blend_shapes = texts_at(stage, prim, "blendShapes");
    assert(views(joints@).len() == joints@.len());
    assert(views(blend_shapes@).len() == blend_shapes@.len());
    if joints.len() == 0 && blend_shapes.len() == 0 {
        return Ok(None);
    }
    if let Some(e) = sample_error(stage, prim, "translations") {
        return Err(e);
    }
    if let Some(e) = sample_error(stage, prim, "rotations") {
        return Err(e);
    }
    if let Some(e) = sample_error(stage, prim, "scales") {
        return Err(e);
    }
    if let Some(e) = sample_error(stage, prim, "blendShapeWeights") {
        return Err(e);
    }
    let rotations = match samples_at(stage, prim, "rotations") {
        Some(list) => quad_frames(list),
        None => {
            let none: Vec<Frame<Quad>> = Vec::new();
            assert(frame_views(none@) =~= Seq::<FrameView<Quad>>::empty());
            none
        },
    };
    let blend_shape_weights = match samples_at(stage, prim, "blendShapeWeights") {
        Some(list) => float_frames(list),
        None => {
            let none: Vec<Frame<u32>> = Vec::new();
            assert(frame_views(none@) =~= Seq::<FrameView<u32>>::empty());
            none
        },
    };
    Ok(
        Some(
            ReadSkelAnimText {
                prim_name: leaf(prim),
                joints,
                blend_shapes,
                translations: triple_frames_at(stage, prim, "translations"),
                rotations,
                scales: triple_frames_at(stage, prim, "scales"),
                blend_shape_weights,
            },
        ),
    )
}

/// Every decoded track is in strictly ascending time.
pub proof fn tracks_ascend(samples: Seq<Sample>, count: nat)
    ensures
        super::skel_anim_text::ascends(triple_track(samples, count)),
        super::skel_anim_text::ascends(quad_track(samples, count)),
        super::skel_anim_text::ascends(float_track(samples, count)),
    decreases count,
{
    if count > 0 {
        let before = (count - 1) as nat;
        tracks_ascend(samples, before);
        let sample = samples[count - 1];
        if let Some(items) = sample_triples(sample.value) {
            super::skel_anim_text::frames_stay_ascending(
                triple_track(samples, before),
                sample.time,
                items,
            );
        }
        if let Some(items) = sample_quads(sample.value) {
            super::skel_anim_text::frames_stay_ascending(
                quad_track(samples, before),
                sample.time,
                items,
            );
        }
        if let Some(items) = sample_floats(sample.value) {
            super::skel_anim_text::frames_stay_ascending(
                float_track(samples, before),
                sample.time,
                items,
            );
        }
    }
}

} // verus!
