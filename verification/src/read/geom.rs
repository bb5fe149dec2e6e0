//! The authored parts of a mesh prim, and its faces as triangles.

use super::util::{
    as_ints, as_text, copy_items, ints_at, or_empty, text_at,
};
use crate::route::signature::{Interpolation, Orientation};
use crate::stage::{Scalar, Stage, Triple, Value};
use crate::text::{cat, opt_view, str_eq};
use vstd::prelude::*;

verus! {

/// A primvar with its numbers one after the other.
#[derive(Debug)]
pub struct ReadPrimvar {
    pub numbers: Vec<Scalar>,
    pub interpolation: Interpolation,
    pub indices: Vec<i32>,
}

/// The authored parts of a mesh.
#[derive(Debug)]
pub struct ReadMesh {
    pub points: Vec<Triple>,
    pub face_vertex_counts: Vec<i32>,
    pub face_vertex_indices: Vec<i32>,
    pub normals: Option<ReadPrimvar>,
    pub uvs: Option<ReadPrimvar>,
    pub orientation: Orientation,
    pub display_color: Option<ReadPrimvar>,
    pub display_opacity: Option<ReadPrimvar>,
}

/// The numbers of the first `count` triples.
pub open spec fn triple_numbers(list: Seq<Triple>, count: nat) -> Seq<Scalar>
    decreases count,
{
    if count == 0 {
        Seq::empty()
    } else {
        triple_numbers(list, (count - 1) as nat) + seq![
            list[count - 1].x,
            list[count - 1].y,
            list[count - 1].z,
        ]
    }
}

/// The numbers of the first `count` pairs.
pub open spec fn pair_numbers(list: Seq<crate::stage::Pair>, count: nat) -> Seq<Scalar>
    decreases count,
{
    if count == 0 {
        Seq::empty()
    } else {
        pair_numbers(list, (count - 1) as nat) + seq![list[count - 1].x, list[count - 1].y]
    }
}

/// The numbers of a list of vectors or of floats.
pub open spec fn numbers_of(value: Option<Value>) -> Option<Seq<Scalar>> {
    match value {
        Some(Value::Vec3fVec(v)) => Some(triple_numbers(v@, v@.len())),
        Some(Value::Vec3dVec(v)) => Some(triple_numbers(v@, v@.len())),
        Some(Value::Vec2fVec(v)) => Some(pair_numbers(v@, v@.len())),
        Some(Value::Vec2dVec(v)) => Some(pair_numbers(v@, v@.len())),
        Some(Value::FloatVec(v)) => Some(v@.map_values(|x: u32| Scalar::F32(x))),
        _ => None,
    }
}

fn triples_in_order(list: &Vec<Triple>) -> (r: Vec<Scalar>)
    ensures
        r@ == triple_numbers(list@, list@.len()),
{
    let mut out: Vec<Scalar> = Vec::new();
    for i in 0..list.len()
        invariant
            out@ == triple_numbers(list@, i as nat),
    {
        let ghost before = out@;
        let t = list[i];
        out.push(t.x);
        out.push(t.y);
        out.push(t.z);
        assert(out@ =~= before + seq![t.x, t.y, t.z]);
    }
    out
}

fn pairs_in_order(list: &Vec<crate::stage::Pair>) -> (r: Vec<Scalar>)
    ensures
        r@ == pair_numbers(list@, list@.len()),
{
    let mut out: Vec<Scalar> = Vec::new();
    for i in 0..list.len()
        invariant
            out@ == pair_numbers(list@, i as nat),
    {
        let ghost before = out@;
        let p = list[i];
        out.push(p.x);
        out.push(p.y);
        assert(out@ =~= before + seq![p.x, p.y]);
    }
    out
}

fn numbers_at(stage: &Stage, prim: &str, name: &str) -> (r: Option<Vec<Scalar>>)
    ensures
        match r {
            Some(v) => numbers_of(stage.value_of(prim@, name@)) == Some(v@),
            None => numbers_of(stage.value_of(prim@, name@)) is None,
        },
{
    match stage.value(prim, name) {
        Some(Value::Vec3fVec(v)) => Some(triples_in_order(v)),
        Some(Value::Vec3dVec(v)) => Some(triples_in_order(v)),
        Some(Value::Vec2fVec(v)) => Some(pairs_in_order(v)),
        Some(Value::Vec2dVec(v)) => Some(pairs_in_order(v)),
        Some(Value::FloatVec(v)) => {
            let mut out: Vec<Scalar> = Vec::new();
            for i in 0..v.len()
                invariant
                    out@ == v@.take(i as int).map_values(|x: u32| Scalar::F32(x)),
            {
                out.push(Scalar::F32(v[i]));
                assert(out@ =~= v@.take(i as int + 1).map_values(|x: u32| Scalar::F32(x)));
            }
            assert(v@.take(v@.len() as int) =~= v@);
            Some(out)
        },
        _ => None,
    }
}

/// The interpolation that a token names; constant for any other.
pub open spec fn interpolation_named(token: Option<Seq<char>>) -> Interpolation {
    if token == Some("uniform"@) {
        Interpolation::Uniform
    } else if token == Some("varying"@) {
        Interpolation::Varying
    } else if token == Some("vertex"@) {
        Interpolation::Vertex
    } else if token == Some("faceVarying"@) {
        Interpolation::FaceVarying
    } else {
        Interpolation::Constant
    }
}

/// The interpolation token of an attribute, where one can be read.
pub open spec fn token_of(stage: Stage, prim: Seq<char>, name: Seq<char>) -> Option<Seq<char>> {
    match stage.attribute_of(prim, name) {
        Some(a) => match a.interpolation {
            Ok(token) => opt_view(token),
            Err(_) => None,
        },
        None => None,
    }
}

fn interpolation_at(stage: &Stage, prim: &str, name: &str) -> (r: Interpolation)
    ensures
        r == interpolation_named(token_of(*stage, prim@, name@)),
{
    if let Some(found) = stage.attribute(prim, name) {
        if let Ok(Some(token)) = &found.interpolation {
            let t = token.as_str();
            if str_eq(t, "uniform") {
                return Interpolation::Uniform;
            }
            if str_eq(t, "varying") {
                return Interpolation::Varying;
            }
            if str_eq(t, "vertex") {
                return Interpolation::Vertex;
            }
            if str_eq(t, "faceVarying") {
                return Interpolation::FaceVarying;
            }
        }
    }
    Interpolation::Constant
}

/// What a primvar says; nothing where it holds no list of numbers.
pub open spec fn is_primvar(
    stage: Stage,
    prim: Seq<char>,
    name: Seq<char>,
    r: Option<ReadPrimvar>,
) -> bool {
    match numbers_of(stage.value_of(prim, name)) {
        None => r is None,
        Some(numbers) => r is Some && r->0.numbers@ == numbers && r->0.interpolation
            == interpolation_named(token_of(stage, prim, name)) && r->0.indices@ == or_empty(
            as_ints(stage.value_of(prim, name + ":indices"@)),
        ),
    }
}

fn ints_or_none(stage: &Stage, prim: &str, name: &str) -> (r: Vec<i32>)
    ensures
        r@ == or_empty(as_ints(stage.value_of(prim@, name@))),
{
    match ints_at(stage, prim, name) {
        Some(v) => v,
        None => {
            let none: Vec<i32> = Vec::new();
            assert(none@ =~= Seq::<i32>::empty());
            none
        },
    }
}

fn primvar_at(stage: &Stage, prim: &str, name: &str) -> (r: Option<ReadPrimvar>)
    ensures
        is_primvar(*stage, prim@, name@, r),
{
    match numbers_at(stage, prim, name) {
        None => None,
        Some(numbers) => Some(
            ReadPrimvar {
                numbers,
                interpolation: interpolation_at(stage, prim, name),
                indices: ints_or_none(stage, prim, cat(name, ":indices").as_str()),
            },
        ),
    }
}

/// The points of a mesh.
pub open spec fn points_of(value: Option<Value>) -> Option<Seq<Triple>> {
    match value {
        Some(Value::Vec3fVec(v)) => Some(v@),
        Some(Value::Vec3dVec(v)) => Some(v@),
        _ => None,
    }
}

/// The winding that a token names; right-handed for any other.
pub open spec fn orientation_named(token: Option<Seq<char>>) -> Orientation {
    if token == Some("leftHanded"@) {
        Orientation::LeftHanded
    } else {
        Orientation::RightHanded
    }
}

/// Reads the mesh of a prim that has points.
pub fn read_mesh(stage: &Stage, prim: &str) -> (r: Option<ReadMesh>)
    ensures
        match points_of(stage.value_of(prim@, "points"@)) {
            None => r is None,
            Some(points) => {
                &&& r is Some
                &&& r->0.points@ == points
                &&& r->0.face_vertex_counts@ == or_empty(
                    as_ints(stage.value_of(prim@, "faceVertexCounts"@)),
                )
                &&& r->0.face_vertex_indices@ == or_empty(
                    as_ints(stage.value_of(prim@, "faceVertexIndices"@)),
                )
                &&& is_primvar(*stage, prim@, "normals"@, r->0.normals)
                &&& is_primvar(*stage, prim@, "primvars:st"@, r->0.uvs)
                &&& r->0.orientation == orientation_named(
                    as_text(stage.value_of(prim@, "orientation"@)),
                )
                &&& is_primvar(*stage, prim@, "primvars:displayColor"@, r->0.display_color)
                &&& is_primvar(*stage, prim@, "primvars:displayOpacity"@, r->0.display_opacity)
            },
        },
{
    let points = match stage.value(prim, "points") {
        Some(Value::Vec3fVec(v)) => copy_items(v),
        Some(Value::Vec3dVec(v)) => copy_items(v),
        _ => return None,
    };
    let orientation = match text_at(stage, prim, "orientation") {
        Some(token) => if str_eq(token.as_str(), "leftHanded") {
            Orientation::LeftHanded
        } else {
            Orientation::RightHanded
        },
        None => Orientation::RightHanded,
    };
    Some(
        ReadMesh {
            points,
            face_vertex_counts: ints_or_none(stage, prim, "faceVertexCounts"),
            face_vertex_indices: ints_or_none(stage, prim, "faceVertexIndices"),
            normals: primvar_at(stage, prim, "normals"),
            uvs: primvar_at(stage, prim, "primvars:st"),
            orientation,
            display_color: primvar_at(stage, prim, "primvars:displayColor"),
            display_opacity: primvar_at(stage, prim, "primvars:displayOpacity"),
        },
    )
}

/// How many corners a face has.
pub open spec fn corners(count: i32) -> nat {
    if count < 0 {
        0
    } else {
        count as nat
    }
}

/// Where the corners of face `face` start in the list of indices.
pub open spec fn first_corner(counts: Seq<i32>, face: nat) -> nat
    decreases face,
{
    if face == 0 {
        0
    } else {
        first_corner(counts, (face - 1) as nat) + corners(counts[face - 1])
    }
}

/// An index names one of the points.
pub open spec fn names_point(index: i32, points: nat) -> bool {
    0 <= index < points
}

/// The triangle of three corners in the winding of the mesh; nothing where a
/// corner names no point.
pub open spec fn triangle(a: i32, b: i32, c: i32, points: nat, winding: Orientation) -> Seq<u32> {
    if names_point(a, points) && names_point(b, points) && names_point(c, points) {
        match winding {
            Orientation::RightHanded => seq![a as u32, b as u32, c as u32],
            Orientation::LeftHanded => seq![a as u32, c as u32, b as u32],
        }
    } else {
        Seq::empty()
    }
}

/// The fan of the first `count` corners of a face whose corners start at
/// `first`.
pub open spec fn fan(
    indices: Seq<i32>,
    first: nat,
    count: nat,
    points: nat,
    winding: Orientation,
) -> Seq<u32>
    decreases count,
{
    if count < 3 {
        Seq::empty()
    } else {
        fan(indices, first, (count - 1) as nat, points, winding) + triangle(
            indices[first as int],
            indices[first + count - 2],
            indices[first + count - 1],
            points,
            winding,
        )
    }
}

/// The triangles of the first `faces` faces. A face whose corners run past the
/// list of indices has none.
pub open spec fn triangles_of(
    counts: Seq<i32>,
    indices: Seq<i32>,
    points: nat,
    winding: Orientation,
    faces: nat,
) -> Seq<u32>
    decreases faces,
{
    if faces == 0 {
        Seq::empty()
    } else {
        let sofar = triangles_of(counts, indices, points, winding, (faces - 1) as nat);
        let first = first_corner(counts, (faces - 1) as nat);
        let count = corners(counts[faces - 1]);
        if first + count <= indices.len() {
            sofar + fan(indices, first, count, points, winding)
        } else {
            sofar
        }
    }
}

fn push_triangle(
    out: &mut Vec<u32>,
    a: i32,
    b: i32,
    c: i32,
    points: usize,
    winding: Orientation,
)
    ensures
        final(out)@ == old(out)@ + triangle(a, b, c, points as nat, winding),
{
    let bounded = a >= 0 && b >= 0 && c >= 0;
    if bounded && (a as usize) < points && (b as usize) < points && (c as usize) < points {
        out.push(a as u32);
        match winding {
            Orientation::RightHanded => {
                out.push(b as u32);
                out.push(c as u32);
            },
            Orientation::LeftHanded => {
                out.push(c as u32);
                out.push(b as u32);
            },
        }
    }
    assert(out@ =~= old(out)@ + triangle(a, b, c, points as nat, winding));
}

fn push_fan(
    out: &mut Vec<u32>,
    indices: &Vec<i32>,
    first: usize,
    count: usize,
    points: usize,
    winding: Orientation,
)
    requires
        first + count <= indices@.len(),
    ensures
        final(out)@ == old(out)@ + fan(
            indices@,
            first as nat,
            count as nat,
            points as nat,
            winding,
        ),
{
    let ghost before = out@;
    let total: usize = indices.len();
    if count < 3 {
        assert(before + Seq::<u32>::empty() =~= before);
        return;
    }
    let mut k: usize = 2;
    assert(before + Seq::<u32>::empty() =~= before);
    while k < count
        invariant
            2 <= k <= count,
            first + count <= total,
            total == indices@.len(),
            out@ == before + fan(indices@, first as nat, k as nat, points as nat, winding),
        decreases count - k,
    {
        push_triangle(
            out,
            indices[first],
            indices[first + (k - 1)],
            indices[first + k],
            points,
            winding,
        );
        assert(out@ =~= before + fan(
            indices@,
            first as nat,
            (k + 1) as nat,
            points as nat,
            winding,
        ));
        k = k + 1;
    }
}

/// Fans the faces of a mesh of `points` points into triangles, three corners
/// each.
pub fn fan_triangles(
    counts: &Vec<i32>,
    indices: &Vec<i32>,
    points: usize,
    winding: Orientation,
) -> (r: Vec<u32>)
    ensures
        r@ == triangles_of(counts@, indices@, points as nat, winding, counts@.len()),
{
    let mut out: Vec<u32> = Vec::new();
    let mut first: usize = 0;
    let mut past: bool = false;
    for face in 0..counts.len()
        invariant
            out@ == triangles_of(counts@, indices@, points as nat, winding, face as nat),
            !past ==> first == first_corner(counts@, face as nat) && first <= indices@.len(),
            past ==> first_corner(counts@, face as nat) > indices@.len(),
    {
        let corner_count: usize = if counts[face] < 0 {
            0
        } else {
            counts[face] as usize
        };
        if !past {
            if corner_count <= indices.len() - first {
                push_fan(&mut out, indices, first, corner_count, points, winding);
                first = first + corner_count;
            } else {
                past = true;
            }
        }
    }
    out
}

/// The fan of a face names points of the mesh, three to a triangle.
proof fn fans_name_points(
    indices: Seq<i32>,
    first: nat,
    count: nat,
    points: nat,
    winding: Orientation,
)
    ensures
        fan(indices, first, count, points, winding).len() % 3 == 0,
        forall|i: int|
            0 <= i < fan(indices, first, count, points, winding).len() ==> #[trigger] fan(
                indices,
                first,
                count,
                points,
                winding,
            )[i] < points,
    decreases count,
{
    if count >= 3 {
        fans_name_points(indices, first, (count - 1) as nat, points, winding);
    }
}

/// Whatever the authored counts and indices are, the triangles come three
/// corners at a time and every corner names a point of the mesh.
pub proof fn triangles_name_points(
    counts: Seq<i32>,
    indices: Seq<i32>,
    points: nat,
    winding: Orientation,
    faces: nat,
)
    ensures
        triangles_of(counts, indices, points, winding, faces).len() % 3 == 0,
        forall|i: int|
            0 <= i < triangles_of(counts, indices, points, winding, faces).len()
                ==> #[trigger] triangles_of(counts, indices, points, winding, faces)[i] < points,
    decreases faces,
{
    if faces > 0 {
        triangles_name_points(counts, indices, points, winding, (faces - 1) as nat);
        fans_name_points(
            indices,
            first_corner(counts, (faces - 1) as nat),
            corners(counts[faces - 1]),
            points,
            winding,
        );
    }
}

/// The first of the first `count` corners that names the point.
pub open spec fn first_use(indices: Seq<i32>, point: nat, count: nat) -> Option<nat>
    decreases count,
{
    if count == 0 {
        None
    } else {
        match first_use(indices, point, (count - 1) as nat) {
            Some(corner) => Some(corner),
            None => if indices[count - 1] == point {
                Some((count - 1) as nat)
            } else {
                None
            },
        }
    }
}

/// Which of the first `faces` faces a corner belongs to.
pub open spec fn face_of(counts: Seq<i32>, corner: nat, faces: nat) -> Option<nat>
    decreases faces,
{
    if faces == 0 {
        None
    } else {
        match face_of(counts, corner, (faces - 1) as nat) {
            Some(face) => Some(face),
            None => if corner < first_corner(counts, faces) {
                Some((faces - 1) as nat)
            } else {
                None
            },
        }
    }
}

/// Which element of a primvar a point takes, before its indices: by where the
/// primvar varies, that of the mesh, of the point, or of the first corner at
/// the point and of that corner's face.
pub open spec fn element_of(
    interpolation: Interpolation,
    counts: Seq<i32>,
    indices: Seq<i32>,
    point: nat,
) -> Option<nat> {
    match interpolation {
        Interpolation::Constant => Some(0),
        Interpolation::Varying => Some(point),
        Interpolation::Vertex => Some(point),
        Interpolation::FaceVarying => first_use(indices, point, indices.len()),
        Interpolation::Uniform => match first_use(indices, point, indices.len()) {
            Some(corner) => face_of(counts, corner, counts.len()),
            None => None,
        },
    }
}

/// Which value an element is: itself, or what the primvar's indices say; none
/// that is not there.
pub open spec fn value_of_element(
    element: Option<nat>,
    value_indices: Seq<i32>,
    values: nat,
) -> Option<nat> {
    match element {
        None => None,
        Some(e) => {
            let place: Option<nat> = if value_indices.len() == 0 {
                Some(e)
            } else if e < value_indices.len() && value_indices[e as int] >= 0 {
                Some(value_indices[e as int] as nat)
            } else {
                None
            };
            match place {
                Some(v) => if v < values {
                    Some(v)
                } else {
                    None
                },
                None => None,
            }
        },
    }
}

/// An optional place as a mathematical number.
pub open spec fn place_view(place: Option<usize>) -> Option<nat> {
    match place {
        Some(i) => Some(i as nat),
        None => None,
    }
}

proof fn first_use_is_before(indices: Seq<i32>, point: nat, count: nat)
    ensures
        first_use(indices, point, count) matches Some(corner) ==> corner < count,
    decreases count,
{
    if count > 0 {
        first_use_is_before(indices, point, (count - 1) as nat);
    }
}

fn first_corners(indices: &Vec<i32>, points: usize) -> (r: Vec<Option<usize>>)
    ensures
        r@.len() == points,
        forall|p: int|
            0 <= p < points ==> place_view(#[trigger] r@[p]) == first_use(
                indices@,
                p as nat,
                indices@.len(),
            ),
{
    let mut out: Vec<Option<usize>> = Vec::new();
    for p in 0..points
        invariant
            out@.len() == p,
            forall|q: int| 0 <= q < p ==> (#[trigger] out@[q]) is None,
    {
        out.push(None);
    }
    for k in 0..indices.len()
        invariant
            out@.len() == points,
            forall|p: int|
                0 <= p < points ==> place_view(#[trigger] out@[p]) == first_use(
                    indices@,
                    p as nat,
                    k as nat,
                ),
    {
        let index: i32 = indices[k];
        if index >= 0 && (index as usize) < points {
            let place: usize = index as usize;
            if out[place].is_none() {
                out.set(place, Some(k));
            }
        }
    }
    out
}

proof fn later_corners_have_no_face(counts: Seq<i32>, corner: nat, faces: nat)
    requires
        corner >= first_corner(counts, faces),
    ensures
        face_of(counts, corner, faces) is None,
    decreases faces,
{
    if faces > 0 {
        later_corners_have_no_face(counts, corner, (faces - 1) as nat);
    }
}

fn corner_faces(counts: &Vec<i32>, corners_total: usize) -> (r: Vec<usize>)
    ensures
        r@.len() <= corners_total,
        forall|k: int|
            0 <= k < r@.len() ==> face_of(counts@, k as nat, counts@.len()) == Some(
                (#[trigger] r@[k]) as nat,
            ),
        forall|k: nat|
            r@.len() <= k < corners_total ==> (#[trigger] face_of(counts@, k, counts@.len()))
                is None,
{
    let mut out: Vec<usize> = Vec::new();
    for face in 0..counts.len()
        invariant
            out@.len() <= corners_total,
            out@.len() == first_corner(counts@, face as nat) || (out@.len() == corners_total
                && first_corner(counts@, face as nat) >= corners_total),
            forall|k: int|
                0 <= k < out@.len() ==> face_of(counts@, k as nat, face as nat) == Some(
                    (#[trigger] out@[k]) as nat,
                ),
    {
        let ghost start = first_corner(counts@, face as nat);
        let ghost end = first_corner(counts@, face as nat + 1);
        let mut left: usize = if counts[face] < 0 {
            0
        } else {
            counts[face] as usize
        };
        while left > 0 && out.len() < corners_total
            invariant
                out@.len() <= corners_total,
                start == first_corner(counts@, face as nat),
                end == first_corner(counts@, face as nat + 1),
                end == start + corners(counts@[face as int]),
                out@.len() + left == end || (out@.len() == corners_total && start
                    >= corners_total),
                forall|k: int|
                    0 <= k < out@.len() && k < start ==> face_of(counts@, k as nat, face as nat)
                        == Some((#[trigger] out@[k]) as nat),
                forall|k: int|
                    start <= k < out@.len() ==> (#[trigger] out@[k]) == face,
                out@.len() >= start || out@.len() == corners_total,
            decreases left,
        {
            out.push(face);
            left = left - 1;
        }
        assert forall|k: int| 0 <= k < out@.len() implies face_of(
            counts@,
            k as nat,
            face as nat + 1,
        ) == Some((#[trigger] out@[k]) as nat) by {
            if k >= start {
                later_corners_have_no_face(counts@, k as nat, face as nat);
            }
        }
    }
    assert forall|k: nat| out@.len() <= k < corners_total implies (#[trigger] face_of(
        counts@,
        k,
        counts@.len(),
    )) is None by {
        later_corners_have_no_face(counts@, k, counts@.len());
    }
    out
}

/// Which value of a primvar each point of a mesh takes.
pub fn point_values(
    interpolation: Interpolation,
    value_indices: &Vec<i32>,
    values: usize,
    counts: &Vec<i32>,
    indices: &Vec<i32>,
    points: usize,
) -> (r: Vec<Option<usize>>)
    ensures
        r@.len() == points,
        forall|p: int|
            0 <= p < points ==> place_view(#[trigger] r@[p]) == value_of_element(
                element_of(interpolation, counts@, indices@, p as nat),
                value_indices@,
                values as nat,
            ),
{
    let uses = first_corners(indices, points);
    let faces = corner_faces(counts, indices.len());
    let mut out: Vec<Option<usize>> = Vec::new();
    for p in 0..points
        invariant
            out@.len() == p,
            uses@.len() == points,
            faces@.len() <= indices@.len(),
            forall|q: int|
                0 <= q < points ==> place_view(#[trigger] uses@[q]) == first_use(
                    indices@,
                    q as nat,
                    indices@.len(),
                ),
            forall|k: int|
                0 <= k < faces@.len() ==> face_of(counts@, k as nat, counts@.len()) == Some(
                    (#[trigger] faces@[k]) as nat,
                ),
            forall|k: nat|
                faces@.len() <= k < indices@.len() ==> (#[trigger] face_of(
                    counts@,
                    k,
                    counts@.len(),
                )) is None,
            forall|q: int|
                0 <= q < p ==> place_view(#[trigger] out@[q]) == value_of_element(
                    element_of(interpolation, counts@, indices@, q as nat),
                    value_indices@,
                    values as nat,
                ),
    {
        proof {
            first_use_is_before(indices@, p as nat, indices@.len());
        }
        let corner: Option<usize> = uses[p];
        assert(place_view(uses@[p as int]) == first_use(indices@, p as nat, indices@.len()));
        let element: Option<usize> = match interpolation {
            Interpolation::Constant => Some(0),
            Interpolation::Varying => Some(p),
            Interpolation::Vertex => Some(p),
            Interpolation::FaceVarying => corner,
            Interpolation::Uniform => match corner {
                Some(k) => if k < faces.len() {
                    assert(face_of(counts@, k as nat, counts@.len()) == Some(
                        faces@[k as int] as nat,
                    ));
                    Some(faces[k])
                } else {
                    assert(face_of(counts@, k as nat, counts@.len()) is None);
                    None
                },
                None => None,
            },
        };
        out.push(pick_value(element, value_indices, values));
    }
    out
}

fn pick_value(element: Option<usize>, value_indices: &Vec<i32>, values: usize) -> (r: Option<usize>)
    ensures
        place_view(r) == value_of_element(place_view(element), value_indices@, values as nat),
{
    let e: usize = match element {
        Some(e) => e,
        None => return None,
    };
    let place: usize = if value_indices.len() == 0 {
        e
    } else if e < value_indices.len() && value_indices[e] >= 0 {
        value_indices[e] as usize
    } else {
        return None;
    };
    if place < values {
        Some(place)
    } else {
        None
    }
}

} // verus!
