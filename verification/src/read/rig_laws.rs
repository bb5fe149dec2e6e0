//! What decoded skeletons, bindings and animations hold of the stage.

use super::skel::{
    animation_decodes, binding_decodes, binding_tail_problem, element_size_of, float_track,
    joint_parent, last_index, matrices_of, quad_track, sample_floats, sample_quads, sample_triples,
    samples_of, short_name, skeleton_properties, track_problem, triple_track, ReadSkelBinding,
};
use super::skel_anim_text::{
    ascends, frame_views, frames_stay_ascending, with_frame, FrameView, ReadSkelAnimText,
};
use super::laws::the_first_unreadable_property_is_reported;
use super::util::{as_ints, as_numbers, as_texts, first_of, first_problem, targets_of};
use crate::float::rank64;
use crate::stage::{Sample, Stage, Value};
use crate::text::{last_place, opt_view, views};
use vstd::prelude::*;

verus! {

/// The last place of an item in a list is the last at which it stands.
pub proof fn last_places_are_last(list: Seq<Seq<char>>, item: Seq<char>)
    ensures
        last_index(list, item) matches Some(i) ==> 0 <= i < list.len() && list[i] == item && forall|
            k: int,
        |
            i < k < list.len() ==> #[trigger] list[k] != item,
        last_index(list, item) is None <==> !list.contains(item),
    decreases list.len(),
{
    if list.len() > 0 {
        let front = list.drop_last();
        last_places_are_last(front, item);
        if list.last() == item {
            assert(list[list.len() - 1] == item);
        } else {
            if list.contains(item) {
                let k = choose|k: int| 0 <= k < list.len() && list[k] == item;
                assert(front[k] == item);
            }
            if front.contains(item) {
                let k = choose|k: int| 0 <= k < front.len() && front[k] == item;
                assert(list[k] == item);
            }
            if let Some(i) = last_index(front, item) {
                assert forall|k: int| i < k < list.len() implies #[trigger] list[k] != item by {
                    if k < front.len() {
                        assert(front[k] == list[k]);
                    }
                }
            }
        }
    }
}

/// The last place of a character in a text is the last at which it stands.
pub proof fn last_characters_are_last(text: Seq<char>, c: char)
    ensures
        -1 <= last_place(text, c) < text.len() as int,
        last_place(text, c) >= 0 ==> text[last_place(text, c)] == c,
        forall|k: int| last_place(text, c) < k < text.len() ==> #[trigger] text[k] != c,
    decreases text.len(),
{
    if text.len() > 0 {
        let front = text.drop_last();
        last_characters_are_last(front, c);
        if text.last() != c {
            assert forall|k: int| last_place(text, c) < k < text.len() implies #[trigger] text[k]
                != c by {
                if k < front.len() {
                    assert(front[k] == text[k]);
                }
            }
        }
    }
}

/// A joint below another one has it as its parent: where a joint path is a
/// listed path, a slash and a name, that path is its parent. A path without a
/// slash has none, and so has one whose upper part is not listed.
pub proof fn joints_below_have_their_parent(
    joints: Seq<Seq<char>>,
    above: Seq<char>,
    name: Seq<char>,
)
    requires
        !name.contains('/'),
    ensures
        joint_parent(joints, name) is None,
        joints.contains(above) ==> (joint_parent(joints, above + seq!['/'] + name) matches Some(p)
            && 0 <= p < joints.len() && joints[p] == above),
        !joints.contains(above) ==> joint_parent(joints, above + seq!['/'] + name) is None,
{
    last_characters_are_last(name, '/');
    if last_place(name, '/') >= 0 {
        assert(name.contains(name[last_place(name, '/')]));
    }
    let joint = above + seq!['/'] + name;
    last_characters_are_last(joint, '/');
    let n = above.len() as int;
    assert(joint[n] == '/');
    let place = last_place(joint, '/');
    if place < n {
        assert(joint[n] != '/');
    } else if place > n {
        assert(joint[place] == name[place - n - 1]);
        assert(name.contains(name[place - n - 1]));
    }
    assert(joint.take(place) =~= above);
    last_places_are_last(joints, above);
}

/// The short name of a path is what follows its last slash.
pub proof fn short_names_follow_the_last_slash(above: Seq<char>, name: Seq<char>)
    requires
        !name.contains('/'),
    ensures
        short_name(name) == name,
        short_name(above + seq!['/'] + name) == name,
{
    last_characters_are_last(name, '/');
    if last_place(name, '/') >= 0 {
        assert(name.contains(name[last_place(name, '/')]));
    }
    assert(name.skip(0) =~= name);
    let path = above + seq!['/'] + name;
    last_characters_are_last(path, '/');
    let n = above.len() as int;
    assert(path[n] == '/');
    let place = last_place(path, '/');
    if place < n {
        assert(path[n] != '/');
    } else if place > n {
        assert(path[place] == name[place - n - 1]);
        assert(name.contains(name[place - n - 1]));
    }
    assert(path.skip(n + 1) =~= name);
}

/// Which value types the samples of an animation take, with all their items.
pub proof fn animation_samples_keep_their_items(value: Value)
    ensures
        value matches Value::Vec3fVec(v) ==> sample_triples(value) == Some(v@),
        value matches Value::Vec3dVec(v) ==> sample_triples(value) == Some(v@),
        value matches Value::Vec3hVec(v) ==> sample_triples(value) == Some(v@),
        !(value is Vec3fVec || value is Vec3dVec || value is Vec3hVec) ==> sample_triples(value)
            is None,
        value matches Value::QuatfVec(v) ==> sample_quads(value) == Some(v@),
        value matches Value::QuatdVec(v) ==> sample_quads(value) == Some(v@),
        value matches Value::QuathVec(v) ==> sample_quads(value) == Some(v@),
        !(value is QuatfVec || value is QuatdVec || value is QuathVec) ==> sample_quads(value)
            is None,
        value matches Value::FloatVec(v) ==> sample_floats(value) == Some(v@),
        !(value is FloatVec) ==> sample_floats(value) is None,
{
}

/// The track has these values at the time.
pub open spec fn has_frame<E>(track: Seq<FrameView<E>>, time: u64, items: Seq<E>) -> bool {
    exists|i: int|
        0 <= i < track.len() && rank64((#[trigger] track[i]).time) == rank64(time)
            && track[i].items == items
}

/// Putting values at a time into a track leaves those at every other time.
pub proof fn other_frames_stay<E>(
    track: Seq<FrameView<E>>,
    time: u64,
    items: Seq<E>,
    other: u64,
    held: Seq<E>,
)
    requires
        ascends(track),
        rank64(other) != rank64(time),
        has_frame(track, other, held),
    ensures
        has_frame(with_frame(track, time, items), other, held),
    decreases track.len(),
{
    let out = with_frame(track, time, items);
    let i = choose|i: int|
        0 <= i < track.len() && rank64((#[trigger] track[i]).time) == rank64(other)
            && track[i].items == held;
    let last = track.len() - 1;
    if rank64(track.last().time) < rank64(time) {
        assert(out[i] == track[i]);
    } else if rank64(track.last().time) == rank64(time) {
        assert(i != last);
        assert(out[i] == track[i]);
    } else {
        let front = track.drop_last();
        let inner = with_frame(front, time, items);
        if i == last {
            assert(out[inner.len() as int] == track[i]);
        } else {
            assert(ascends(front)) by {
                assert forall|a: int, b: int| 0 <= a < b < front.len() implies rank64(
                    (#[trigger] front[a]).time,
                ) < rank64((#[trigger] front[b]).time) by {
                    assert(rank64(track[a].time) < rank64(track[b].time));
                }
            }
            assert(front[i] == track[i]);
            other_frames_stay(front, time, items, other, held);
            let k = choose|k: int|
                0 <= k < inner.len() && rank64((#[trigger] inner[k]).time) == rank64(other)
                    && inner[k].items == held;
            assert(out[k] == inner[k]);
        }
    }
}

/// After values are put at a time, the track has them there.
pub proof fn put_frames_are_there<E>(track: Seq<FrameView<E>>, time: u64, items: Seq<E>)
    requires
        ascends(track),
    ensures
        has_frame(with_frame(track, time, items), time, items),
{
    frames_stay_ascending(track, time, items);
    let out = with_frame(track, time, items);
    let i = choose|i: int|
        0 <= i < out.len() && rank64((#[trigger] out[i]).time) == rank64(time);
    assert(out[i].items == items);
}

/// Every sample that holds triples is a frame of the track, unless a later one
/// that holds triples has the same time.
pub proof fn triple_samples_reach_the_track(samples: Seq<Sample>, count: nat, i: int)
    requires
        0 <= i < count <= samples.len(),
        sample_triples(samples[i].value) is Some,
        forall|j: int|
            i < j < count && sample_triples((#[trigger] samples[j]).value) is Some ==> rank64(
                samples[j].time,
            ) != rank64(samples[i].time),
    ensures
        has_frame(
            triple_track(samples, count),
            samples[i].time,
            sample_triples(samples[i].value)->0,
        ),
    decreases count,
{
    let before = (count - 1) as nat;
    super::skel::tracks_ascend(samples, before);
    let track = triple_track(samples, before);
    if i == before {
        put_frames_are_there(track, samples[i].time, sample_triples(samples[i].value)->0);
    } else {
        triple_samples_reach_the_track(samples, before, i);
        if let Some(items) = sample_triples(samples[before as int].value) {
            other_frames_stay(
                track,
                samples[before as int].time,
                items,
                samples[i].time,
                sample_triples(samples[i].value)->0,
            );
        }
    }
}

/// Every sample that holds quaternions is a frame of the track, unless a later
/// one that holds quaternions has the same time.
pub proof fn quad_samples_reach_the_track(samples: Seq<Sample>, count: nat, i: int)
    requires
        0 <= i < count <= samples.len(),
        sample_quads(samples[i].value) is Some,
        forall|j: int|
            i < j < count && sample_quads((#[trigger] samples[j]).value) is Some ==> rank64(
                samples[j].time,
            ) != rank64(samples[i].time),
    ensures
        has_frame(quad_track(samples, count), samples[i].time, sample_quads(samples[i].value)->0),
    decreases count,
{
    let before = (count - 1) as nat;
    super::skel::tracks_ascend(samples, before);
    let track = quad_track(samples, before);
    if i == before {
        put_frames_are_there(track, samples[i].time, sample_quads(samples[i].value)->0);
    } else {
        quad_samples_reach_the_track(samples, before, i);
        if let Some(items) = sample_quads(samples[before as int].value) {
            other_frames_stay(
                track,
                samples[before as int].time,
                items,
                samples[i].time,
                sample_quads(samples[i].value)->0,
            );
        }
    }
}

/// Every sample that holds floats is a frame of the track, unless a later one
/// that holds floats has the same time.
pub proof fn float_samples_reach_the_track(samples: Seq<Sample>, count: nat, i: int)
    requires
        0 <= i < count <= samples.len(),
        sample_floats(samples[i].value) is Some,
        forall|j: int|
            i < j < count && sample_floats((#[trigger] samples[j]).value) is Some ==> rank64(
                samples[j].time,
            ) != rank64(samples[i].time),
    ensures
        has_frame(float_track(samples, count), samples[i].time, sample_floats(samples[i].value)->0),
    decreases count,
{
    let before = (count - 1) as nat;
    super::skel::tracks_ascend(samples, before);
    let track = float_track(samples, before);
    if i == before {
        put_frames_are_there(track, samples[i].time, sample_floats(samples[i].value)->0);
    } else {
        float_samples_reach_the_track(samples, before, i);
        if let Some(items) = sample_floats(samples[before as int].value) {
            other_frames_stay(
                track,
                samples[before as int].time,
                items,
                samples[i].time,
                sample_floats(samples[i].value)->0,
            );
        }
    }
}

/// No frame is made up: each holds the triples of some sample of its time.
pub proof fn triple_frames_come_from_samples(samples: Seq<Sample>, count: nat, k: int)
    requires
        count <= samples.len(),
        0 <= k < triple_track(samples, count).len(),
    ensures
        exists|i: int|
            0 <= i < count && sample_triples((#[trigger] samples[i]).value) == Some(
                triple_track(samples, count)[k].items,
            ) && rank64(samples[i].time) == rank64(triple_track(samples, count)[k].time),
    decreases count,
{
    if count > 0 {
        let before = (count - 1) as nat;
        super::skel::tracks_ascend(samples, before);
        let track = triple_track(samples, before);
        let out = triple_track(samples, count);
        let sample = samples[before as int];
        if let Some(items) = sample_triples(sample.value) {
            frames_stay_ascending(track, sample.time, items);
            assert(out == with_frame(track, sample.time, items));
            if rank64(out[k].time) != rank64(sample.time) {
                let q = choose|q: int| 0 <= q < track.len() && track[q] == out[k];
                triple_frames_come_from_samples(samples, before, q);
            }
        } else {
            triple_frames_come_from_samples(samples, before, k);
        }
    }
}

/// Each field of a skeleton binding is the property of its name. Where no
/// element size is authored, there is one influence to a point.
pub proof fn binding_fields_have_their_properties(
    stage: Stage,
    prim: Seq<char>,
    b: ReadSkelBinding,
)
    requires
        binding_decodes(stage, prim, b),
    ensures
        b.prim_path@ == prim,
        opt_view(b.skeleton) == first_of(targets_of(stage, prim, "skel:skeleton"@)),
        as_ints(stage.value_of(prim, "primvars:skel:jointIndices"@)) == Some(b.joint_indices@),
        as_numbers(stage.value_of(prim, "primvars:skel:jointWeights"@)) == Some(b.joint_weights@),
        views(b.joint_subset@) == as_texts(stage.value_of(prim, "skel:joints"@)),
        views(b.blend_shapes@) == as_texts(stage.value_of(prim, "skel:blendShapes"@)),
        views(b.blend_shape_targets@) == targets_of(stage, prim, "skel:blendShapeTargets"@),
        stage.attribute_of(prim, "primvars:skel:jointIndices"@) matches Some(a) ==> (
        a.element_size matches Ok(Some(n)) ==> b.elements_per_vertex == n),
        stage.attribute_of(prim, "primvars:skel:jointIndices"@) matches Some(a) ==> (a.element_size
            == Ok::<Option<i32>, String>(None) ==> b.elements_per_vertex == 1),
{
}

/// A skeleton binding is read only where everything it holds can be.
pub proof fn bindings_report_unreadable_properties(stage: Stage, prim: Seq<char>)
    ensures
        binding_tail_problem(stage, prim) is None <==> {
            &&& stage.related(prim, "skel:skeleton"@) is Ok
            &&& element_size_of(stage, prim, "primvars:skel:jointIndices"@) is Ok
            &&& stage.default_value(prim, "skel:joints"@) is Ok
            &&& stage.default_value(prim, "skel:blendShapes"@) is Ok
            &&& stage.related(prim, "skel:blendShapeTargets"@) is Ok
        },
        first_problem(stage, prim, skeleton_properties()) is None <==> stage.default_value(
            prim,
            "bindTransforms"@,
        ) is Ok && stage.default_value(prim, "restTransforms"@) is Ok,
{
    let first = seq![(true, "skel:skeleton"@)];
    the_first_unreadable_property_is_reported(stage, prim, first);
    assert(first[0] == (true, "skel:skeleton"@));
    let rest = seq![
        (false, "skel:joints"@),
        (false, "skel:blendShapes"@),
        (true, "skel:blendShapeTargets"@),
    ];
    the_first_unreadable_property_is_reported(stage, prim, rest);
    assert(rest[0] == (false, "skel:joints"@));
    assert(rest[1] == (false, "skel:blendShapes"@));
    assert(rest[2] == (true, "skel:blendShapeTargets"@));
    let list = skeleton_properties();
    the_first_unreadable_property_is_reported(stage, prim, list);
    assert(list[0] == (false, "bindTransforms"@));
    assert(list[1] == (false, "restTransforms"@));
}

/// Matrices are kept row by row, in order; other values hold none.
pub proof fn matrices_keep_their_rows(stage: Stage, prim: Seq<char>, name: Seq<char>)
    ensures
        match stage.value_of(prim, name) {
            Some(Value::Matrix4dVec(v)) => matrices_of(stage, prim, name).len() == v@.len()
                && forall|i: int|
                0 <= i < v@.len() ==> (#[trigger] matrices_of(stage, prim, name)[i]) == v@[i]@,
            _ => matrices_of(stage, prim, name).len() == 0,
        },
{
}

/// Each list and track of an animation is the attribute of its name.
pub proof fn animation_tracks_have_their_attributes(
    stage: Stage,
    prim: Seq<char>,
    a: ReadSkelAnimText,
)
    requires
        animation_decodes(stage, prim, a),
        track_problem(stage, prim) is None,
    ensures
        a.prim_name@ == short_name(prim),
        views(a.joints@) == as_texts(stage.value_of(prim, "joints"@)),
        views(a.blend_shapes@) == as_texts(stage.value_of(prim, "blendShapes"@)),
        samples_of(stage, prim, "translations"@) matches Ok(list) && frame_views(a.translations@)
            == triple_track(list, list.len()),
        samples_of(stage, prim, "rotations"@) matches Ok(list) && frame_views(a.rotations@)
            == quad_track(list, list.len()),
        samples_of(stage, prim, "scales"@) matches Ok(list) && frame_views(a.scales@)
            == triple_track(list, list.len()),
        samples_of(stage, prim, "blendShapeWeights"@) matches Ok(list) && frame_views(
            a.blend_shape_weights@,
        ) == float_track(list, list.len()),
{
}

/// The samples of an attribute are those authored on it, in order.
pub proof fn samples_are_the_authored_ones(stage: Stage, prim: Seq<char>, name: Seq<char>)
    ensures
        stage.attribute_of(prim, name) is None ==> (samples_of(stage, prim, name) matches Ok(list)
            && list.len() == 0),
        stage.attribute_of(prim, name) matches Some(a) ==> {
            &&& a.samples matches Ok(list) ==> samples_of(stage, prim, name) == Ok::<
                Seq<Sample>,
                Seq<char>,
            >(list@)
            &&& a.samples matches Err(e) ==> samples_of(stage, prim, name) == Err::<
                Seq<Sample>,
                Seq<char>,
            >(e@)
        },
        track_problem(stage, prim) is None <==> {
            &&& samples_of(stage, prim, "translations"@) is Ok
            &&& samples_of(stage, prim, "rotations"@) is Ok
            &&& samples_of(stage, prim, "scales"@) is Ok
            &&& samples_of(stage, prim, "blendShapeWeights"@) is Ok
        },
{
}

} // verus!
