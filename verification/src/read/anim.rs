//! Time-sampled transform operations: the authored samples, and which of them
//! a time code takes or lies between.

use super::skel::samples_of;
use super::util::as_triple;
use crate::float::{is_nan64, less64, rank64};
use crate::stage::{Sample, Scalar, Stage, Triple, Value};
use crate::text::{copy, str_eq};
use vstd::prelude::*;

verus! {

#[derive(Debug, Clone, Copy, PartialEq, Eq, Structural)]
pub enum InterpMode {
    Linear,
    Held,
}

impl Default for InterpMode {
    fn default() -> (r: Self)
        ensures
            r == InterpMode::Linear,
    {
        InterpMode::Linear
    }
}

/// The mode that a token names.
pub open spec fn mode_of(token: Seq<char>) -> Option<InterpMode> {
    if token == "linear"@ {
        Some(InterpMode::Linear)
    } else if token == "held"@ {
        Some(InterpMode::Held)
    } else {
        None
    }
}

impl InterpMode {
    /// The mode that a token names.
    pub fn parse(s: &str) -> (r: Option<Self>)
        ensures
            r == mode_of(s@),
    {
        if str_eq(s, "linear") {
            Some(InterpMode::Linear)
        } else if str_eq(s, "held") {
            Some(InterpMode::Held)
        } else {
            None
        }
    }
}

/// The interpolation of an attribute: linear where none or an unknown one is
/// authored.
pub open spec fn interpolation_of(stage: Stage, prim: Seq<char>, name: Seq<char>) -> Result<
    InterpMode,
    Seq<char>,
> {
    match stage.attribute_of(prim, name) {
        None => Ok(InterpMode::Linear),
        Some(a) => match a.interpolation {
            Err(e) => Err(e@),
            Ok(None) => Ok(InterpMode::Linear),
            Ok(Some(token)) => match mode_of(token@) {
                Some(mode) => Ok(mode),
                None => Ok(InterpMode::Linear),
            },
        },
    }
}

/// Read the `interpolation` metadata on a time-sampled attribute. Defaults
/// to `Linear` when unauthored.
pub fn read_interp_mode(stage: &Stage, prim: &str, prop: &str) -> (r: Result<InterpMode, String>)
    ensures
        match r {
            Ok(mode) => interpolation_of(*stage, prim@, prop@) == Ok::<InterpMode, Seq<char>>(mode),
            Err(e) => interpolation_of(*stage, prim@, prop@) == Err::<InterpMode, Seq<char>>(e@),
        },
        ({
            let authored = stage.attribute_of(prim@, prop@);
            &&& r matches Ok(mode) ==> (mode == InterpMode::Held <==> (authored matches Some(a)
                && a.interpolation matches Ok(Some(token)) && token@ == "held"@))
            &&& r is Err <==> (authored matches Some(a) && a.interpolation is Err)
            &&& r matches Err(text) ==> (authored matches Some(a) && a.interpolation matches Err(e)
                && e@ == text@)
        }),
{
    proof {
        reveal_strlit("linear");
        reveal_strlit("held");
        assert("linear"@.len() != "held"@.len());
    }
    match stage.attribute(prim, prop) {
        None => Ok(InterpMode::Linear),
        Some(found) => match &found.interpolation {
            Err(e) => Err(copy(e.as_str())),
            Ok(None) => Ok(InterpMode::Linear),
            Ok(Some(token)) => match InterpMode::parse(token.as_str()) {
                Some(mode) => Ok(mode),
                None => Ok(InterpMode::Linear),
            },
        },
    }
}

/// A vector at a time, the bits of a double.
#[derive(Debug, Clone, Copy, PartialEq, Eq, Structural)]
pub struct Vec3Sample {
    pub time: u64,
    pub value: Triple,
}

/// A number at a time, the bits of a double.
#[derive(Debug, Clone, Copy, PartialEq, Eq, Structural)]
pub struct ScalarSample {
    pub time: u64,
    pub value: Scalar,
}

#[derive(Debug)]
pub struct Vec3Track {
    pub samples: Vec<Vec3Sample>,
    pub mode: InterpMode,
}

#[derive(Debug)]
pub struct ScalarTrack {
    pub samples: Vec<ScalarSample>,
    pub mode: InterpMode,
}

#[derive(Debug)]
pub struct AnimatedPrim {
    pub translate: Option<Vec3Track>,
    pub rotate_xyz: Option<Vec3Track>,
    pub scale: Option<Vec3Track>,
    pub rotate_x: Option<ScalarTrack>,
    pub rotate_y: Option<ScalarTrack>,
    pub rotate_z: Option<ScalarTrack>,
}

impl AnimatedPrim {
    /// No operation is animated.
    pub open spec fn no_tracks(self) -> bool {
        self.translate is None && self.rotate_xyz is None && self.scale is None && self.rotate_x
            is None && self.rotate_y is None && self.rotate_z is None
    }

    pub fn is_empty(&self) -> (r: bool)
        ensures
            r == self.no_tracks(),
    {
        self.translate.is_none() && self.rotate_xyz.is_none() && self.scale.is_none()
            && self.rotate_x.is_none() && self.rotate_y.is_none() && self.rotate_z.is_none()
    }
}

/// A number of any type.
pub open spec fn sample_scalar(value: Value) -> Option<Scalar> {
    match value {
        Value::Float(v) => Some(Scalar::F32(v)),
        Value::Double(v) => Some(Scalar::F64(v)),
        Value::Int(v) => Some(Scalar::Int(v as i64)),
        Value::Int64(v) => Some(Scalar::Int(v)),
        _ => None,
    }
}

/// The first `count` samples that decode to vectors.
pub open spec fn vec3_samples(samples: Seq<Sample>, count: nat) -> Seq<Vec3Sample>
    decreases count,
{
    if count == 0 {
        Seq::empty()
    } else {
        let sofar = vec3_samples(samples, (count - 1) as nat);
        match as_triple(Some(samples[count - 1].value)) {
            Some(value) => sofar.push(Vec3Sample { time: samples[count - 1].time, value }),
            None => sofar,
        }
    }
}

/// The first `count` samples that decode to numbers.
pub open spec fn scalar_samples(samples: Seq<Sample>, count: nat) -> Seq<ScalarSample>
    decreases count,
{
    if count == 0 {
        Seq::empty()
    } else {
        let sofar = scalar_samples(samples, (count - 1) as nat);
        match sample_scalar(samples[count - 1].value) {
            Some(value) => sofar.push(ScalarSample { time: samples[count - 1].time, value }),
            None => sofar,
        }
    }
}

fn samples_to_vec3(samples: &Vec<Sample>) -> (r: Vec<Vec3Sample>)
    ensures
        r@ == vec3_samples(samples@, samples@.len()),
{
    let mut out: Vec<Vec3Sample> = Vec::new();
    for i in 0..samples.len()
        invariant
            out@ == vec3_samples(samples@, i as nat),
    {
        let time: u64 = samples[i].time;
        match &samples[i].value {
            Value::Vec3f(x, y, z) => out.push(
                Vec3Sample {
                    time,
                    value: Triple { x: Scalar::F32(*x), y: Scalar::F32(*y), z: Scalar::F32(*z) },
                },
            ),
            Value::Vec3d(x, y, z) => out.push(
                Vec3Sample {
                    time,
                    value: Triple { x: Scalar::F64(*x), y: Scalar::F64(*y), z: Scalar::F64(*z) },
                },
            ),
            _ => {},
        }
    }
    out
}

fn samples_to_scalar(samples: &Vec<Sample>) -> (r: Vec<ScalarSample>)
    ensures
        r@ == scalar_samples(samples@, samples@.len()),
{
    let mut out: Vec<ScalarSample> = Vec::new();
    for i in 0..samples.len()
        invariant
            out@ == scalar_samples(samples@, i as nat),
    {
        let time: u64 = samples[i].time;
        match &samples[i].value {
            Value::Float(v) => out.push(ScalarSample { time, value: Scalar::F32(*v) }),
            Value::Double(v) => out.push(ScalarSample { time, value: Scalar::F64(*v) }),
            Value::Int(v) => out.push(ScalarSample { time, value: Scalar::Int(*v as i64) }),
            Value::Int64(v) => out.push(ScalarSample { time, value: Scalar::Int(*v) }),
            _ => {},
        }
    }
    out
}

/// The tracks of an operation whose authored samples are all numbers: as many
/// samples as are authored, each with the time and the number of its own.
pub open spec fn keeps_numbers(authored: Seq<Sample>, kept: Seq<ScalarSample>) -> bool {
    (forall|i: int|
        0 <= i < authored.len() ==> (#[trigger] authored[i]).value is Float || authored[i].value
            is Double || authored[i].value is Int || authored[i].value is Int64) ==> {
        &&& kept.len() == authored.len()
        &&& forall|i: int|
            0 <= i < authored.len() ==> (#[trigger] kept[i]).time == authored[i].time && (
            authored[i].value matches Value::Float(b) ==> kept[i].value == Scalar::F32(b)) && (
            authored[i].value matches Value::Double(b) ==> kept[i].value == Scalar::F64(b)) && (
            authored[i].value matches Value::Int(v) ==> kept[i].value == Scalar::Int(v as i64)) && (
            authored[i].value matches Value::Int64(v) ==> kept[i].value == Scalar::Int(v))
    }
}

/// The same of an operation whose authored samples are all vectors.
pub open spec fn keeps_vectors(authored: Seq<Sample>, kept: Seq<Vec3Sample>) -> bool {
    (forall|i: int|
        0 <= i < authored.len() ==> (#[trigger] authored[i]).value is Vec3f || authored[i].value
            is Vec3d) ==> {
        &&& kept.len() == authored.len()
        &&& forall|i: int|
            0 <= i < authored.len() ==> (#[trigger] kept[i]).time == authored[i].time && (
            authored[i].value matches Value::Vec3f(x, y, z) ==> kept[i].value == (Triple {
                x: Scalar::F32(x),
                y: Scalar::F32(y),
                z: Scalar::F32(z),
            })) && (authored[i].value matches Value::Vec3d(x, y, z) ==> kept[i].value == (Triple {
                x: Scalar::F64(x),
                y: Scalar::F64(y),
                z: Scalar::F64(z),
            }))
    }
}

/// Authored numbers all reach the track, in order, each at its own time and
/// with its own value, whether it is a float, a double, an int or a wide int.
pub proof fn numbers_reach_the_track(samples: Seq<Sample>, count: nat)
    requires
        count <= samples.len(),
    ensures
        keeps_numbers(samples.take(count as int), scalar_samples(samples, count)),
    decreases count,
{
    if count > 0 {
        let last = (count - 1) as nat;
        let all = samples.take(count as int);
        let before = samples.take(last as int);
        numbers_reach_the_track(samples, last);
        if forall|i: int|
            0 <= i < all.len() ==> (#[trigger] all[i]).value is Float || all[i].value is Double
                || all[i].value is Int || all[i].value is Int64 {
            assert(all[last as int] == samples[last as int]);
            assert forall|i: int| 0 <= i < before.len() implies (#[trigger] before[i]).value is Float
                || before[i].value is Double || before[i].value is Int || before[i].value is Int64 by {
                assert(all[i] == before[i]);
            }
            let kept = scalar_samples(samples, last);
            let grown = scalar_samples(samples, count);
            assert forall|i: int| 0 <= i < last implies grown[i] == kept[i] && all[i]
                == before[i] by {}
        }
    }
}

/// Authored vectors all reach the track, in order, each at its own time and
/// with its own components.
pub proof fn vectors_reach_the_track(samples: Seq<Sample>, count: nat)
    requires
        count <= samples.len(),
    ensures
        keeps_vectors(samples.take(count as int), vec3_samples(samples, count)),
    decreases count,
{
    if count > 0 {
        let last = (count - 1) as nat;
        let all = samples.take(count as int);
        let before = samples.take(last as int);
        vectors_reach_the_track(samples, last);
        if forall|i: int|
            0 <= i < all.len() ==> (#[trigger] all[i]).value is Vec3f || all[i].value is Vec3d {
            assert(all[last as int] == samples[last as int]);
            assert forall|i: int| 0 <= i < before.len() implies (#[trigger] before[i]).value is Vec3f
                || before[i].value is Vec3d by {
                assert(all[i] == before[i]);
            }
            let kept = vec3_samples(samples, last);
            let grown = vec3_samples(samples, count);
            assert forall|i: int| 0 <= i < last implies grown[i] == kept[i] && all[i]
                == before[i] by {}
        }
    }
}

/// A further sample that is no number leaves a scalar track as it is, and one
/// that is no vector a vector track; no sample is lost or made up.
pub proof fn other_samples_are_skipped(samples: Seq<Sample>, more: Sample)
    ensures
        !(more.value is Float || more.value is Double || more.value is Int || more.value is Int64)
            ==> scalar_samples(samples.push(more), samples.len() + 1) == scalar_samples(
            samples,
            samples.len(),
        ),
        more.value matches Value::Float(b) ==> scalar_samples(samples.push(more), samples.len() + 1)
            == scalar_samples(samples, samples.len()).push(
            ScalarSample { time: more.time, value: Scalar::F32(b) },
        ),
        more.value matches Value::Double(b) ==> scalar_samples(
            samples.push(more),
            samples.len() + 1,
        ) == scalar_samples(samples, samples.len()).push(
            ScalarSample { time: more.time, value: Scalar::F64(b) },
        ),
        more.value matches Value::Int64(v) ==> scalar_samples(samples.push(more), samples.len() + 1)
            == scalar_samples(samples, samples.len()).push(
            ScalarSample { time: more.time, value: Scalar::Int(v) },
        ),
        more.value matches Value::Int(v) ==> scalar_samples(samples.push(more), samples.len() + 1)
            == scalar_samples(samples, samples.len()).push(
            ScalarSample { time: more.time, value: Scalar::Int(v as i64) },
        ),
        !(more.value is Vec3f || more.value is Vec3d) ==> vec3_samples(
            samples.push(more),
            samples.len() + 1,
        ) == vec3_samples(samples, samples.len()),
        more.value is Vec3f || more.value is Vec3d ==> vec3_samples(
            samples.push(more),
            samples.len() + 1,
        ).len() == vec3_samples(samples, samples.len()).len() + 1,
{
    assert(samples.push(more)[samples.len() as int] == more);
    earlier_samples_decide(samples, more, samples.len());
}

proof fn earlier_samples_decide(samples: Seq<Sample>, more: Sample, count: nat)
    requires
        count <= samples.len(),
    ensures
        scalar_samples(samples.push(more), count) == scalar_samples(samples, count),
        vec3_samples(samples.push(more), count) == vec3_samples(samples, count),
    decreases count,
{
    if count > 0 {
        earlier_samples_decide(samples, more, (count - 1) as nat);
        assert(samples.push(more)[count - 1] == samples[count - 1]);
    }
}

/// What reading the track of one operation gives: its error, no track without
/// samples, or the mode and the samples to decode.
pub open spec fn track_source(stage: Stage, prim: Seq<char>, name: Seq<char>) -> Result<
    Option<(Seq<Sample>, InterpMode)>,
    Seq<char>,
> {
    match samples_of(stage, prim, name) {
        Err(e) => Err(e),
        Ok(samples) => if samples.len() == 0 {
            Ok(None)
        } else {
            match interpolation_of(stage, prim, name) {
                Err(e) => Err(e),
                Ok(mode) => Ok(Some((samples, mode))),
            }
        },
    }
}

/// The vector track holds what its source decodes to.
pub open spec fn vec3_track_decodes(
    source: Result<Option<(Seq<Sample>, InterpMode)>, Seq<char>>,
    track: Option<Vec3Track>,
) -> bool {
    match source {
        Ok(Some((samples, mode))) => track matches Some(t) && t.samples@ == vec3_samples(
            samples,
            samples.len(),
        ) && t.mode == mode,
        _ => track is None,
    }
}

/// The scalar track holds what its source decodes to.
pub open spec fn scalar_track_decodes(
    source: Result<Option<(Seq<Sample>, InterpMode)>, Seq<char>>,
    track: Option<ScalarTrack>,
) -> bool {
    match source {
        Ok(Some((samples, mode))) => track matches Some(t) && t.samples@ == scalar_samples(
            samples,
            samples.len(),
        ) && t.mode == mode,
        _ => track is None,
    }
}

/// The time samples of an attribute; `None` when none are authored.
pub fn read_samples<'a>(stage: &'a Stage, prim: &str, prop: &str) -> (r: Result<
    Option<&'a Vec<Sample>>,
    String,
>)
    ensures
        match samples_of(*stage, prim@, prop@) {
            Err(e) => r matches Err(text) && text@ == e,
            Ok(samples) => if samples.len() == 0 {
                r matches Ok(None)
            } else {
                r matches Ok(Some(list)) && list@ == samples
            },
        },
{
    match stage.attribute(prim, prop) {
        None => Ok(None),
        Some(found) => match &found.samples {
            Err(e) => Err(copy(e.as_str())),
            Ok(list) => if list.len() == 0 {
                Ok(None)
            } else {
                Ok(Some(list))
            },
        },
    }
}

fn vec3_track(stage: &Stage, prim: &str, prop: &str) -> (r: Result<Option<Vec3Track>, String>)
    ensures
        match r {
            Err(text) => track_source(*stage, prim@, prop@) == Err::<
                Option<(Seq<Sample>, InterpMode)>,
                Seq<char>,
            >(text@),
            Ok(track) => track_source(*stage, prim@, prop@) is Ok && vec3_track_decodes(
                track_source(*stage, prim@, prop@),
                track,
            ),
        },
        r matches Ok(track) ==> vectors_animate(*stage, prim@, prop@, track),
{
    match read_samples(stage, prim, prop) {
        Err(e) => Err(e),
        Ok(None) => Ok(None),
        Ok(Some(list)) => match read_interp_mode(stage, prim, prop) {
            Err(e) => Err(e),
            Ok(mode) => {
                proof {
                    vectors_reach_the_track(list@, list@.len());
                    assert(list@.take(list@.len() as int) =~= list@);
                }
                Ok(Some(Vec3Track { samples: samples_to_vec3(list), mode }))
            },
        },
    }
}

fn scalar_track(stage: &Stage, prim: &str, prop: &str) -> (r: Result<Option<ScalarTrack>, String>)
    ensures
        match r {
            Err(text) => track_source(*stage, prim@, prop@) == Err::<
                Option<(Seq<Sample>, InterpMode)>,
                Seq<char>,
            >(text@),
            Ok(track) => track_source(*stage, prim@, prop@) is Ok && scalar_track_decodes(
                track_source(*stage, prim@, prop@),
                track,
            ),
        },
        r matches Ok(track) ==> numbers_animate(*stage, prim@, prop@, track),
{
    match read_samples(stage, prim, prop) {
        Err(e) => Err(e),
        Ok(None) => Ok(None),
        Ok(Some(list)) => match read_interp_mode(stage, prim, prop) {
            Err(e) => Err(e),
            Ok(mode) => {
                proof {
                    numbers_reach_the_track(list@, list@.len());
                    assert(list@.take(list@.len() as int) =~= list@);
                }
                Ok(Some(ScalarTrack { samples: samples_to_scalar(list), mode }))
            },
        },
    }
}

/// The operations that are looked for, in the order they are read.
pub open spec fn operations() -> Seq<Seq<char>> {
    seq![
        "xformOp:translate"@,
        "xformOp:rotateXYZ"@,
        "xformOp:scale"@,
        "xformOp:rotateX"@,
        "xformOp:rotateY"@,
        "xformOp:rotateZ"@,
    ]
}

/// The error of the first of these operations that cannot be read.
pub open spec fn operation_problem(stage: Stage, prim: Seq<char>, names: Seq<Seq<char>>) -> Option<
    Seq<char>,
>
    decreases names.len(),
{
    if names.len() == 0 {
        None
    } else {
        match operation_problem(stage, prim, names.drop_last()) {
            Some(e) => Some(e),
            None => match track_source(stage, prim, names.last()) {
                Err(e) => Some(e),
                Ok(_) => None,
            },
        }
    }
}

/// The record holds what the operations of the prim decode to.
pub open spec fn animation_decodes(stage: Stage, prim: Seq<char>, a: AnimatedPrim) -> bool {
    &&& vec3_track_decodes(track_source(stage, prim, "xformOp:translate"@), a.translate)
    &&& vec3_track_decodes(track_source(stage, prim, "xformOp:rotateXYZ"@), a.rotate_xyz)
    &&& vec3_track_decodes(track_source(stage, prim, "xformOp:scale"@), a.scale)
    &&& scalar_track_decodes(track_source(stage, prim, "xformOp:rotateX"@), a.rotate_x)
    &&& scalar_track_decodes(track_source(stage, prim, "xformOp:rotateY"@), a.rotate_y)
    &&& scalar_track_decodes(track_source(stage, prim, "xformOp:rotateZ"@), a.rotate_z)
}

/// Some operation of the prim has time samples.
pub open spec fn is_animated(stage: Stage, prim: Seq<char>) -> bool {
    exists|i: int|
        0 <= i < 6 && (track_source(stage, prim, #[trigger] operations()[i]) matches Ok(Some(_)))
}

/// The attribute has no time samples.
pub open spec fn unsampled(stage: Stage, prim: Seq<char>, name: Seq<char>) -> bool {
    stage.attribute_of(prim, name) matches Some(a) ==> (a.samples matches Ok(list) && list@.len()
        == 0)
}

/// The mode authored on an attribute: held only where that is said.
pub open spec fn holds_its_mode(stage: Stage, prim: Seq<char>, name: Seq<char>, mode: InterpMode) -> bool {
    mode == InterpMode::Held <==> (stage.attribute_of(prim, name) matches Some(a)
        && a.interpolation matches Ok(Some(token)) && token@ == "held"@)
}

/// An operation with samples has a track in its authored mode with all the
/// numbers that are authored; one without has none.
pub open spec fn numbers_animate(
    stage: Stage,
    prim: Seq<char>,
    name: Seq<char>,
    track: Option<ScalarTrack>,
) -> bool {
    &&& track is None <==> unsampled(stage, prim, name)
    &&& track matches Some(t) ==> stage.attribute_of(prim, name) is Some && (stage.attribute_of(
        prim,
        name,
    )->0.samples matches Ok(list) && keeps_numbers(list@, t.samples@)) && holds_its_mode(
        stage,
        prim,
        name,
        t.mode,
    )
}

/// The same of an operation on vectors.
pub open spec fn vectors_animate(
    stage: Stage,
    prim: Seq<char>,
    name: Seq<char>,
    track: Option<Vec3Track>,
) -> bool {
    &&& track is None <==> unsampled(stage, prim, name)
    &&& track matches Some(t) ==> stage.attribute_of(prim, name) is Some && (stage.attribute_of(
        prim,
        name,
    )->0.samples matches Ok(list) && keeps_vectors(list@, t.samples@)) && holds_its_mode(
        stage,
        prim,
        name,
        t.mode,
    )
}

/// Read any time-sampled xformOp on `prim`; `None` where none is animated.
pub fn read_animated_prim(stage: &Stage, prim: &str) -> (r: Result<Option<AnimatedPrim>, String>)
    ensures
        match operation_problem(*stage, prim@, operations()) {
            Some(e) => r matches Err(text) && text@ == e,
            None => if is_animated(*stage, prim@) {
                r matches Ok(Some(a)) && animation_decodes(*stage, prim@, a)
            } else {
                r == Ok::<Option<AnimatedPrim>, String>(None)
            },
        },
        r matches Ok(Some(a)) ==> numbers_animate(*stage, prim@, "xformOp:rotateX"@, a.rotate_x)
            && numbers_animate(*stage, prim@, "xformOp:rotateY"@, a.rotate_y) && numbers_animate(
            *stage,
            prim@,
            "xformOp:rotateZ"@,
            a.rotate_z,
        ),
        r matches Ok(Some(a)) ==> vectors_animate(*stage, prim@, "xformOp:translate"@, a.translate)
            && vectors_animate(*stage, prim@, "xformOp:rotateXYZ"@, a.rotate_xyz)
            && vectors_animate(*stage, prim@, "xformOp:scale"@, a.scale),
        r matches Ok(None) ==> unsampled(*stage, prim@, "xformOp:translate"@) && unsampled(
            *stage,
            prim@,
            "xformOp:rotateXYZ"@,
        ) && unsampled(*stage, prim@, "xformOp:scale"@) && unsampled(
            *stage,
            prim@,
            "xformOp:rotateX"@,
        ) && unsampled(*stage, prim@, "xformOp:rotateY"@) && unsampled(
            *stage,
            prim@,
            "xformOp:rotateZ"@,
        ),
{
    let ghost names = operations();
    proof {
        assert(names.take(6) =~= names);
        assert(names.take(6).drop_last() =~= names.take(5));
        assert(names.take(5).drop_last() =~= names.take(4));
        assert(names.take(4).drop_last() =~= names.take(3));
        assert(names.take(3).drop_last() =~= names.take(2));
        assert(names.take(2).drop_last() =~= names.take(1));
        assert(names.take(1).drop_last() =~= Seq::<Seq<char>>::empty());
        reveal_with_fuel(operation_problem, 8);
        assert(names.take(1).last() == "xformOp:translate"@);
        assert(names.take(2).last() == "xformOp:rotateXYZ"@);
        assert(names.take(3).last() == "xformOp:scale"@);
        assert(names.take(4).last() == "xformOp:rotateX"@);
        assert(names.take(5).last() == "xformOp:rotateY"@);
        assert(names.take(6).last() == "xformOp:rotateZ"@);
    }
    let translate = match vec3_track(stage, prim, "xformOp:translate") {
        Ok(track) => track,
        Err(e) => return Err(e),
    };
    let rotate_xyz = match vec3_track(stage, prim, "xformOp:rotateXYZ") {
        Ok(track) => track,
        Err(e) => return Err(e),
    };
    let scale = match vec3_track(stage, prim, "xformOp:scale") {
        Ok(track) => track,
        Err(e) => return Err(e),
    };
    let rotate_x = match scalar_track(stage, prim, "xformOp:rotateX") {
        Ok(track) => track,
        Err(e) => return Err(e),
    };
    let rotate_y = match scalar_track(stage, prim, "xformOp:rotateY") {
        Ok(track) => track,
        Err(e) => return Err(e),
    };
    let rotate_z = match scalar_track(stage, prim, "xformOp:rotateZ") {
        Ok(track) => track,
        Err(e) => return Err(e),
    };
    assert(names[0] == "xformOp:translate"@);
    assert(names[1] == "xformOp:rotateXYZ"@);
    assert(names[2] == "xformOp:scale"@);
    assert(names[3] == "xformOp:rotateX"@);
    assert(names[4] == "xformOp:rotateY"@);
    assert(names[5] == "xformOp:rotateZ"@);
    let out = AnimatedPrim { translate, rotate_xyz, scale, rotate_x, rotate_y, rotate_z };
    if out.is_empty() {
        Ok(None)
    } else {
        Ok(Some(out))
    }
}

/// Where a time falls in a track: on a sample, or strictly between two
/// neighbours that are interpolated.
#[derive(Debug, Clone, Copy, PartialEq, Eq, Structural)]
pub enum Placement {
    At(usize),
    Between(usize, usize),
}

/// The times are numbers in ascending order; equal ones may follow each other.
pub open spec fn times_ascend(times: Seq<u64>) -> bool {
    &&& forall|i: int| 0 <= i < times.len() ==> !is_nan64(#[trigger] times[i])
    &&& forall|i: int, j: int|
        0 <= i < j < times.len() ==> rank64(#[trigger] times[i]) <= rank64(#[trigger] times[j])
}

/// How many samples at the start of the track are not after the time.
pub open spec fn reached(times: Seq<u64>, t: u64) -> nat
    decreases times.len(),
{
    if times.len() == 0 {
        0
    } else if !is_nan64(times[0]) && !is_nan64(t) && rank64(times[0]) <= rank64(t) {
        1 + reached(times.skip(1), t)
    } else {
        0
    }
}

/// The sample that a held track shows: the last one reached, or the first.
pub open spec fn held_index(times: Seq<u64>, t: u64) -> int {
    if reached(times, t) == 0 {
        0
    } else {
        reached(times, t) - 1
    }
}

fn count_reached(times: &Vec<u64>, t: u64) -> (r: usize)
    ensures
        r == reached(times@, t),
        r <= times@.len(),
{
    let n: usize = times.len();
    let mut i: usize = 0;
    assert(times@.skip(0) =~= times@);
    while i < n && (less64(times[i], t) || same_time(times[i], t))
        invariant
            n == times@.len(),
            i <= n,
            reached(times@, t) == i + reached(times@.skip(i as int), t),
        decreases n - i,
    {
        assert(times@.skip(i as int).skip(1) =~= times@.skip(i as int + 1));
        i = i + 1;
    }
    i
}

/// The sample that a held track shows at a time.
pub fn held_placement(times: &Vec<u64>, t: u64) -> (r: Option<usize>)
    ensures
        times@.len() == 0 ==> r is None,
        times@.len() > 0 ==> r is Some && r->0 == held_index(times@, t) && r->0 < times@.len(),
{
    if times.len() == 0 {
        return None;
    }
    let k: usize = count_reached(times, t);
    if k == 0 {
        Some(0)
    } else {
        Some(k - 1)
    }
}

fn same_time(a: u64, b: u64) -> (r: bool)
    ensures
        r == (!is_nan64(a) && !is_nan64(b) && rank64(a) == rank64(b)),
{
    !nan(a) && !nan(b) && !less64(a, b) && !less64(b, a)
}

fn nan(a: u64) -> (r: bool)
    ensures
        r == is_nan64(a),
{
    (0x7ff0_0000_0000_0000 < a && a < 0x8000_0000_0000_0000) || 0xfff0_0000_0000_0000 < a
}

/// `a` is not after `b`; never with a NaN.
pub open spec fn not_after(a: u64, b: u64) -> bool {
    !is_nan64(a) && !is_nan64(b) && rank64(a) <= rank64(b)
}

/// Where a time falls for linear interpolation: at the first sample up to its
/// time, at the last one from its time on, else at the last sample that has
/// the time, or between the last one reached and the next. A time that
/// compares with no sample, such as a NaN, falls at the last one.
pub open spec fn linear_at(times: Seq<u64>, t: u64) -> Placement {
    let k = reached(times, t);
    if not_after(t, times[0]) {
        Placement::At(0)
    } else if not_after(times.last(), t) || k == 0 {
        Placement::At((times.len() - 1) as usize)
    } else if rank64(times[k - 1]) == rank64(t) {
        Placement::At((k - 1) as usize)
    } else {
        Placement::Between((k - 1) as usize, k as usize)
    }
}

proof fn reached_bounds(times: Seq<u64>, t: u64)
    ensures
        reached(times, t) <= times.len(),
        forall|i: int| 0 <= i < reached(times, t) ==> not_after(#[trigger] times[i], t),
        reached(times, t) < times.len() ==> !not_after(times[reached(times, t) as int], t),
    decreases times.len(),
{
    if times.len() > 0 && not_after(times[0], t) {
        let rest = times.skip(1);
        reached_bounds(rest, t);
        assert forall|i: int| 0 <= i < reached(times, t) implies not_after(
            #[trigger] times[i],
            t,
        ) by {
            if i > 0 {
                assert(rest[i - 1] == times[i]);
            }
        }
    }
}

/// Where a time falls for linear interpolation.
pub fn linear_placement(times: &Vec<u64>, t: u64) -> (r: Option<Placement>)
    ensures
        times@.len() == 0 ==> r is None,
        times@.len() > 0 ==> r == Some(linear_at(times@, t)),
{
    let n: usize = times.len();
    if n == 0 {
        return None;
    }
    proof {
        reached_bounds(times@, t);
    }
    let k: usize = count_reached(times, t);
    if less64(t, times[0]) || same_time(t, times[0]) {
        Some(Placement::At(0))
    } else if less64(times[n - 1], t) || same_time(times[n - 1], t) || k == 0 {
        Some(Placement::At(n - 1))
    } else if same_time(times[k - 1], t) {
        Some(Placement::At(k - 1))
    } else {
        Some(Placement::Between(k - 1, k))
    }
}

/// In ascending times, a time falls at a sample that has it, at an end that
/// it lies beyond, or between two neighbours that it lies between.
pub proof fn linear_brackets_the_time(times: Seq<u64>, t: u64)
    requires
        times_ascend(times),
        0 < times.len() <= usize::MAX,
        !is_nan64(t),
    ensures
        match linear_at(times, t) {
            Placement::At(i) => i < times.len() && (rank64(times[i as int]) == rank64(t) || (i == 0
                && rank64(t) < rank64(times[0])) || (i == times.len() - 1 && rank64(times.last())
                < rank64(t))),
            Placement::Between(lo, hi) => hi < times.len() && lo + 1 == hi && rank64(
                times[lo as int],
            ) < rank64(t) < rank64(times[hi as int]),
        },
{
    reached_bounds(times, t);
    let k = reached(times, t);
    assert(!is_nan64(times[0]));
    assert(!is_nan64(times.last()));
    if k < times.len() {
        assert(!is_nan64(times[k as int]));
    }
    if k > 0 {
        assert(not_after(times[k - 1], t));
    }
}

/// On a held track in ascending time, the shown sample is not after the time
/// and the next one is, unless the time comes before all samples.
pub proof fn held_shows_the_last_reached(times: Seq<u64>, t: u64)
    requires
        times_ascend(times),
        times.len() > 0,
        !is_nan64(t),
    ensures
        ({
            let i = held_index(times, t);
            &&& 0 <= i < times.len()
            &&& rank64(times[i]) <= rank64(t) || (i == 0 && rank64(t) < rank64(times[0]))
            &&& i + 1 < times.len() ==> rank64(t) < rank64(times[i + 1])
        }),
{
    reached_bounds(times, t);
    let k = reached(times, t);
    if k > 0 {
        assert(not_after(times[k - 1], t));
    }
    if k < times.len() {
        assert(!is_nan64(times[k as int]));
        if k == 0 && times.len() > 1 {
            assert(rank64(times[0]) <= rank64(times[1]));
        }
    }
}

/// A held track never interpolates. A linear one does wherever the time lies
/// strictly between two neighbouring samples, and between these two.
pub proof fn only_linear_tracks_interpolate(
    times: Seq<u64>,
    mode: InterpMode,
    t: u64,
    r: Option<Placement>,
    i: int,
)
    requires
        times_ascend(times),
        times.len() <= usize::MAX,
        !is_nan64(t),
        0 <= i < times.len() - 1,
        rank64(times[i]) < rank64(t) < rank64(times[i + 1]),
        shown(times, mode, t, r),
    ensures
        mode is Held ==> r == Some(Placement::At(i as usize)),
        mode is Linear ==> r == Some(Placement::Between(i as usize, (i + 1) as usize)),
{
    reached_bounds(times, t);
    let k = reached(times, t);
    assert(rank64(times[0]) <= rank64(times[i])) by {
        if i > 0 {
            assert(rank64(times[0]) <= rank64(times[i]));
        }
    }
    assert(!is_nan64(times[0]));
    let end = times.len() - 1;
    assert(rank64(times[i + 1]) <= rank64(times[end])) by {
        if i + 1 < end {
            assert(rank64(times[i + 1]) <= rank64(times[end]));
        }
    }
    if k <= i {
        assert(!not_after(times[k as int], t));
        assert(!is_nan64(times[k as int]));
        if k < i {
            assert(rank64(times[k as int]) <= rank64(times[i]));
        }
    }
    if k > i + 1 {
        assert(not_after(times[i + 1], t));
    }
}

fn vec3_times(samples: &Vec<Vec3Sample>) -> (r: Vec<u64>)
    ensures
        r@ == samples@.map_values(|s: Vec3Sample| s.time),
{
    let mut out: Vec<u64> = Vec::new();
    for i in 0..samples.len()
        invariant
            out@ == samples@.take(i as int).map_values(|s: Vec3Sample| s.time),
    {
        out.push(samples[i].time);
        assert(out@ =~= samples@.take(i as int + 1).map_values(|s: Vec3Sample| s.time));
    }
    assert(samples@.take(samples@.len() as int) =~= samples@);
    out
}

fn scalar_times(samples: &Vec<ScalarSample>) -> (r: Vec<u64>)
    ensures
        r@ == samples@.map_values(|s: ScalarSample| s.time),
{
    let mut out: Vec<u64> = Vec::new();
    for i in 0..samples.len()
        invariant
            out@ == samples@.take(i as int).map_values(|s: ScalarSample| s.time),
    {
        out.push(samples[i].time);
        assert(out@ =~= samples@.take(i as int + 1).map_values(|s: ScalarSample| s.time));
    }
    assert(samples@.take(samples@.len() as int) =~= samples@);
    out
}

/// What a track shows at a time in its mode.
pub open spec fn shown(times: Seq<u64>, mode: InterpMode, t: u64, r: Option<Placement>) -> bool {
    if times.len() == 0 {
        r is None
    } else {
        match mode {
            InterpMode::Linear => r == Some(linear_at(times, t)),
            InterpMode::Held => r matches Some(Placement::At(i)) && i == held_index(times, t),
        }
    }
}

/// Which samples linear interpolation uses at a time.
pub fn sample_vec3_concrete(samples: &Vec<Vec3Sample>, t: u64) -> (r: Option<Placement>)
    ensures
        shown(samples@.map_values(|s: Vec3Sample| s.time), InterpMode::Linear, t, r),
{
    linear_placement(&vec3_times(samples), t)
}

/// Which samples linear interpolation uses at a time.
pub fn sample_scalar_concrete(samples: &Vec<ScalarSample>, t: u64) -> (r: Option<Placement>)
    ensures
        shown(samples@.map_values(|s: ScalarSample| s.time), InterpMode::Linear, t, r),
{
    linear_placement(&scalar_times(samples), t)
}

/// The vector that a held track shows at a time.
pub fn sample_vec3_held(samples: &Vec<Vec3Sample>, t: u64) -> (r: Option<Triple>)
    ensures
        r == (if samples@.len() == 0 {
            None
        } else {
            Some(
                samples@[held_index(samples@.map_values(|s: Vec3Sample| s.time), t)].value,
            )
        }),
{
    match held_placement(&vec3_times(samples), t) {
        Some(i) => Some(samples[i].value),
        None => None,
    }
}

/// The number that a held track shows at a time.
pub fn sample_scalar_held(samples: &Vec<ScalarSample>, t: u64) -> (r: Option<Scalar>)
    ensures
        r == (if samples@.len() == 0 {
            None
        } else {
            Some(
                samples@[held_index(samples@.map_values(|s: ScalarSample| s.time), t)].value,
            )
        }),
{
    match held_placement(&scalar_times(samples), t) {
        Some(i) => Some(samples[i].value),
        None => None,
    }
}

/// Which samples of a vector track make its value at a time.
pub fn eval_vec3_track(track: &Vec3Track, t: u64) -> (r: Option<Placement>)
    ensures
        shown(track.samples@.map_values(|s: Vec3Sample| s.time), track.mode, t, r),
{
    match track.mode {
        InterpMode::Linear => sample_vec3_concrete(&track.samples, t),
        InterpMode::Held => match held_placement(&vec3_times(&track.samples), t) {
            Some(i) => Some(Placement::At(i)),
            None => None,
        },
    }
}

/// Which samples of a scalar track make its value at a time.
pub fn eval_scalar_track(track: &ScalarTrack, t: u64) -> (r: Option<Placement>)
    ensures
        shown(track.samples@.map_values(|s: ScalarSample| s.time), track.mode, t, r),
{
    match track.mode {
        InterpMode::Linear => sample_scalar_concrete(&track.samples, t),
        InterpMode::Held => match held_placement(&scalar_times(&track.samples), t) {
            Some(i) => Some(Placement::At(i)),
            None => None,
        },
    }
}

} // verus!
