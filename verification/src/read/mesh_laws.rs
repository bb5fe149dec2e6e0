//! What the triangles and primvars of a mesh stand for: which corners make a
//! triangle, and which value each point takes.

use super::geom::{
    corners, element_of, face_of, fan, first_corner, first_use, interpolation_named, is_primvar,
    numbers_of, orientation_named, pair_numbers, points_of, token_of, triangle, triangles_of,
    triple_numbers, value_of_element, ReadPrimvar,
};
use super::util::as_ints;
use crate::route::signature::{Interpolation, Orientation};
use crate::stage::{Pair, Scalar, Stage, Triple, Value};
use vstd::prelude::*;

verus! {

/// The numbers of triples come three to a triple, in order.
pub proof fn triples_give_their_numbers(list: Seq<Triple>, count: nat)
    ensures
        triple_numbers(list, count).len() == 3 * count,
        forall|k: int|
            0 <= k < 3 * count ==> #[trigger] triple_numbers(list, count)[k] == (if k % 3 == 0 {
                list[k / 3].x
            } else if k % 3 == 1 {
                list[k / 3].y
            } else {
                list[k / 3].z
            }),
    decreases count,
{
    if count > 0 {
        let last = (count - 1) as nat;
        triples_give_their_numbers(list, last);
        let rest = triple_numbers(list, last);
        assert forall|k: int| 0 <= k < 3 * count implies #[trigger] triple_numbers(list, count)[k]
            == (if k % 3 == 0 {
            list[k / 3].x
        } else if k % 3 == 1 {
            list[k / 3].y
        } else {
            list[k / 3].z
        }) by {
            if k < rest.len() {
                assert(triple_numbers(list, count)[k] == rest[k]);
            }
        }
    }
}

/// The numbers of pairs come two to a pair, in order.
pub proof fn pairs_give_their_numbers(list: Seq<Pair>, count: nat)
    ensures
        pair_numbers(list, count).len() == 2 * count,
        forall|k: int|
            0 <= k < 2 * count ==> #[trigger] pair_numbers(list, count)[k] == (if k % 2 == 0 {
                list[k / 2].x
            } else {
                list[k / 2].y
            }),
    decreases count,
{
    if count > 0 {
        let last = (count - 1) as nat;
        pairs_give_their_numbers(list, last);
        let rest = pair_numbers(list, last);
        assert forall|k: int| 0 <= k < 2 * count implies #[trigger] pair_numbers(list, count)[k]
            == (if k % 2 == 0 {
            list[k / 2].x
        } else {
            list[k / 2].y
        }) by {
            if k < rest.len() {
                assert(pair_numbers(list, count)[k] == rest[k]);
            }
        }
    }
}

/// A primvar has a number for every component of every vector or float in its
/// value, whatever the float width; other values make no primvar.
pub proof fn primvars_keep_every_number(value: Value)
    ensures
        value matches Value::Vec3fVec(v) ==> numbers_of(Some(value)) is Some && numbers_of(
            Some(value),
        )->0.len() == 3 * v@.len(),
        value matches Value::Vec3dVec(v) ==> numbers_of(Some(value)) is Some && numbers_of(
            Some(value),
        )->0.len() == 3 * v@.len(),
        value matches Value::Vec2fVec(v) ==> numbers_of(Some(value)) is Some && numbers_of(
            Some(value),
        )->0.len() == 2 * v@.len(),
        value matches Value::Vec2dVec(v) ==> numbers_of(Some(value)) is Some && numbers_of(
            Some(value),
        )->0.len() == 2 * v@.len(),
        value matches Value::FloatVec(v) ==> numbers_of(Some(value)) is Some && numbers_of(
            Some(value),
        )->0.len() == v@.len() && forall|k: int|
            0 <= k < v@.len() ==> (#[trigger] numbers_of(Some(value))->0[k]) == Scalar::F32(v@[k]),
        !(value is Vec3fVec || value is Vec3dVec || value is Vec2fVec || value is Vec2dVec || value
            is FloatVec) ==> numbers_of(Some(value)) is None,
        numbers_of(None) is None,
        value matches Value::Vec3fVec(v) ==> points_of(Some(value)) == Some(v@),
        value matches Value::Vec3dVec(v) ==> points_of(Some(value)) == Some(v@),
        !(value is Vec3fVec || value is Vec3dVec) ==> points_of(Some(value)) is None,
        points_of(None) is None,
{
    match value {
        Value::Vec3fVec(v) => triples_give_their_numbers(v@, v@.len()),
        Value::Vec3dVec(v) => triples_give_their_numbers(v@, v@.len()),
        Value::Vec2fVec(v) => pairs_give_their_numbers(v@, v@.len()),
        Value::Vec2dVec(v) => pairs_give_their_numbers(v@, v@.len()),
        _ => {},
    }
}

/// Each interpolation and the left-handed winding have one token; any other
/// token, or none, means constant and right-handed.
pub proof fn tokens_name_interpolation_and_winding(token: Option<Seq<char>>)
    ensures
        interpolation_named(token) == Interpolation::Uniform <==> token == Some("uniform"@),
        interpolation_named(token) == Interpolation::Varying <==> token == Some("varying"@),
        interpolation_named(token) == Interpolation::Vertex <==> token == Some("vertex"@),
        interpolation_named(token) == Interpolation::FaceVarying <==> token == Some("faceVarying"@),
        orientation_named(token) == Orientation::LeftHanded <==> token == Some("leftHanded"@),
{
    reveal_strlit("uniform");
    reveal_strlit("varying");
    reveal_strlit("vertex");
    reveal_strlit("faceVarying");
    assert("uniform"@[0] == 'u');
    assert("varying"@[0] == 'v' && "varying"@[1] == 'a');
    assert("vertex"@[0] == 'v' && "vertex"@[1] == 'e');
    assert("faceVarying"@[0] == 'f');
}

/// A primvar has the numbers of its attribute, the interpolation of the same
/// attribute's metadata, and the indices authored beside it.
pub proof fn primvars_have_their_own_indices(
    stage: Stage,
    prim: Seq<char>,
    name: Seq<char>,
    r: Option<ReadPrimvar>,
)
    requires
        is_primvar(stage, prim, name, r),
    ensures
        r is Some <==> numbers_of(stage.value_of(prim, name)) is Some,
        r matches Some(p) ==> numbers_of(stage.value_of(prim, name)) == Some(p.numbers@),
        r matches Some(p) ==> (stage.value_of(prim, name + ":indices"@) matches Some(
            Value::IntVec(v),
        ) ==> p.indices@ == v@),
        r matches Some(p) ==> (as_ints(stage.value_of(prim, name + ":indices"@)) is None
            ==> p.indices@.len() == 0),
        r matches Some(p) ==> (stage.attribute_of(prim, name) matches Some(a)
            && a.interpolation matches Ok(Some(token)) ==> p.interpolation
            == interpolation_named(Some(stage.attribute_of(prim, name)->0.interpolation->Ok_0->0@))),
        r matches Some(p) ==> (stage.attribute_of(prim, name) is Some && stage.attribute_of(
            prim,
            name,
        )->0.interpolation == Ok::<Option<String>, String>(None) ==> p.interpolation
            == Interpolation::Constant),
{
    if let Some(p) = r {
        tokens_name_interpolation_and_winding(token_of(stage, prim, name));
    }
}

/// The corners of a face follow those of the face before it.
pub proof fn faces_follow_each_other(counts: Seq<i32>, a: nat, b: nat)
    requires
        a < b <= counts.len(),
    ensures
        first_corner(counts, 0) == 0,
        counts[a as int] >= 0 ==> first_corner(counts, a + 1) == first_corner(counts, a)
            + counts[a as int],
        counts[a as int] < 0 ==> first_corner(counts, a + 1) == first_corner(counts, a),
        first_corner(counts, a + 1) <= first_corner(counts, b),
    decreases b,
{
    if a + 1 < b {
        faces_follow_each_other(counts, a, (b - 1) as nat);
    }
}

/// Place `at` of the list starts the triangle of these three corners.
pub open spec fn triangle_at(list: Seq<u32>, at: int, a: i32, b: i32, c: i32) -> bool {
    &&& 0 <= at
    &&& at % 3 == 0
    &&& at + 2 < list.len()
    &&& list[at] == a
    &&& list[at + 1] == b
    &&& list[at + 2] == c
}

/// The corners of triangle `t` of a face whose corners start at `first`: the
/// first corner of the face and two neighbours after it, the other way round
/// in a left-handed mesh.
pub open spec fn fan_corners(indices: Seq<i32>, first: int, t: int, winding: Orientation) -> (
    i32,
    i32,
    i32,
) {
    let a = indices[first];
    let b = indices[first + t + 1];
    let c = indices[first + t + 2];
    if winding == Orientation::LeftHanded {
        (a, c, b)
    } else {
        (a, b, c)
    }
}

/// The three indices name points of the mesh.
pub open spec fn all_named(corner: (i32, i32, i32), points: nat) -> bool {
    0 <= corner.0 < points && 0 <= corner.1 < points && 0 <= corner.2 < points
}

proof fn fans_hold_whole_triangles(
    indices: Seq<i32>,
    first: nat,
    count: nat,
    points: nat,
    winding: Orientation,
)
    ensures
        fan(indices, first, count, points, winding).len() % 3 == 0,
    decreases count,
{
    if count >= 3 {
        fans_hold_whole_triangles(indices, first, (count - 1) as nat, points, winding);
    }
}

proof fn front_triangles_stay(front: Seq<u32>, more: Seq<u32>, at: int, a: i32, b: i32, c: i32)
    requires
        triangle_at(front, at, a, b, c),
    ensures
        triangle_at(front + more, at, a, b, c),
{
}

proof fn back_triangles_move(front: Seq<u32>, more: Seq<u32>, at: int, a: i32, b: i32, c: i32)
    requires
        front.len() % 3 == 0,
        triangle_at(more, at, a, b, c),
    ensures
        triangle_at(front + more, front.len() + at, a, b, c),
{
    assert((front + more)[front.len() + at] == more[at]);
    assert((front + more)[front.len() + at + 1] == more[at + 1]);
    assert((front + more)[front.len() + at + 2] == more[at + 2]);
}

/// The fan of a face of `n` corners has the `n - 2` triangles between the first
/// corner and two neighbours, each where its three corners name points.
pub proof fn fans_have_their_triangles(
    indices: Seq<i32>,
    first: nat,
    count: nat,
    points: nat,
    winding: Orientation,
    t: int,
) -> (at: int)
    requires
        0 <= t < count - 2,
        all_named(fan_corners(indices, first as int, t, winding), points),
    ensures
        triangle_at(
            fan(indices, first, count, points, winding),
            at,
            fan_corners(indices, first as int, t, winding).0,
            fan_corners(indices, first as int, t, winding).1,
            fan_corners(indices, first as int, t, winding).2,
        ),
    decreases count,
{
    let fewer = (count - 1) as nat;
    fans_hold_whole_triangles(indices, first, fewer, points, winding);
    let rest = fan(indices, first, fewer, points, winding);
    let (a, b, c) = fan_corners(indices, first as int, t, winding);
    let last = triangle(
        indices[first as int],
        indices[first + count - 2],
        indices[first + count - 1],
        points,
        winding,
    );
    if t < count - 3 {
        let at = fans_have_their_triangles(indices, first, fewer, points, winding, t);
        front_triangles_stay(rest, last, at, a, b, c);
        at
    } else {
        assert(triangle_at(last, 0, a, b, c));
        back_triangles_move(rest, last, 0, a, b, c);
        rest.len() as int
    }
}

/// The fan of a face has no other triangles.
pub proof fn fans_have_no_other_triangles(
    indices: Seq<i32>,
    first: nat,
    count: nat,
    points: nat,
    winding: Orientation,
    at: int,
) -> (t: int)
    requires
        0 <= at < fan(indices, first, count, points, winding).len(),
        at % 3 == 0,
    ensures
        0 <= t < count - 2,
        triangle_at(
            fan(indices, first, count, points, winding),
            at,
            fan_corners(indices, first as int, t, winding).0,
            fan_corners(indices, first as int, t, winding).1,
            fan_corners(indices, first as int, t, winding).2,
        ),
    decreases count,
{
    let fewer = (count - 1) as nat;
    fans_hold_whole_triangles(indices, first, fewer, points, winding);
    let rest = fan(indices, first, fewer, points, winding);
    let last = triangle(
        indices[first as int],
        indices[first + count - 2],
        indices[first + count - 1],
        points,
        winding,
    );
    if at < rest.len() {
        let t = fans_have_no_other_triangles(indices, first, fewer, points, winding, at);
        let (a, b, c) = fan_corners(indices, first as int, t, winding);
        front_triangles_stay(rest, last, at, a, b, c);
        t
    } else {
        let t = count - 3;
        let (a, b, c) = fan_corners(indices, first as int, t, winding);
        assert(last.len() == 3);
        assert(at == rest.len());
        assert(triangle_at(last, 0, a, b, c));
        back_triangles_move(rest, last, 0, a, b, c);
        t
    }
}

proof fn triangle_lists_are_whole(
    counts: Seq<i32>,
    indices: Seq<i32>,
    points: nat,
    winding: Orientation,
    faces: nat,
)
    ensures
        triangles_of(counts, indices, points, winding, faces).len() % 3 == 0,
    decreases faces,
{
    if faces > 0 {
        triangle_lists_are_whole(counts, indices, points, winding, (faces - 1) as nat);
        fans_hold_whole_triangles(
            indices,
            first_corner(counts, (faces - 1) as nat),
            corners(counts[faces - 1]),
            points,
            winding,
        );
    }
}

/// Every triangle of every face is drawn: face `f`, whose corners all lie in
/// the list of indices, contributes each triangle between its first corner and
/// two neighbours after it.
pub proof fn every_face_is_drawn(
    counts: Seq<i32>,
    indices: Seq<i32>,
    points: nat,
    winding: Orientation,
    faces: nat,
    f: nat,
    t: int,
)
    requires
        f < faces <= counts.len(),
        first_corner(counts, f) + counts[f as int] <= indices.len(),
        0 <= t < counts[f as int] - 2,
        all_named(fan_corners(indices, first_corner(counts, f) as int, t, winding), points),
    ensures
        exists|at: int|
            triangle_at(
                triangles_of(counts, indices, points, winding, faces),
                at,
                fan_corners(indices, first_corner(counts, f) as int, t, winding).0,
                fan_corners(indices, first_corner(counts, f) as int, t, winding).1,
                fan_corners(indices, first_corner(counts, f) as int, t, winding).2,
            ),
    decreases faces,
{
    let first = first_corner(counts, f);
    let (a, b, c) = fan_corners(indices, first as int, t, winding);
    let before = (faces - 1) as nat;
    let rest = triangles_of(counts, indices, points, winding, before);
    let own = fan(
        indices,
        first_corner(counts, before),
        corners(counts[before as int]),
        points,
        winding,
    );
    triangle_lists_are_whole(counts, indices, points, winding, before);
    if f < before {
        every_face_is_drawn(counts, indices, points, winding, before, f, t);
        let at = choose|at: int| triangle_at(rest, at, a, b, c);
        front_triangles_stay(rest, own, at, a, b, c);
        assert(triangle_at(triangles_of(counts, indices, points, winding, faces), at, a, b, c));
    } else {
        let at = fans_have_their_triangles(
            indices,
            first,
            corners(counts[f as int]),
            points,
            winding,
            t,
        );
        back_triangles_move(rest, own, at, a, b, c);
        assert(triangle_at(
            triangles_of(counts, indices, points, winding, faces),
            rest.len() + at,
            a,
            b,
            c,
        ));
    }
}

/// Nothing but the triangles of the faces is drawn.
pub proof fn only_faces_are_drawn(
    counts: Seq<i32>,
    indices: Seq<i32>,
    points: nat,
    winding: Orientation,
    faces: nat,
    at: int,
)
    requires
        faces <= counts.len(),
        0 <= at < triangles_of(counts, indices, points, winding, faces).len(),
        at % 3 == 0,
    ensures
        exists|f: nat, t: int|
            #![trigger fan_corners(indices, first_corner(counts, f) as int, t, winding)]
            f < faces && 0 <= t < counts[f as int] - 2 && first_corner(counts, f) + counts[f as int]
                <= indices.len() && triangle_at(
                triangles_of(counts, indices, points, winding, faces),
                at,
                fan_corners(indices, first_corner(counts, f) as int, t, winding).0,
                fan_corners(indices, first_corner(counts, f) as int, t, winding).1,
                fan_corners(indices, first_corner(counts, f) as int, t, winding).2,
            ),
    decreases faces,
{
    let before = (faces - 1) as nat;
    let all = triangles_of(counts, indices, points, winding, faces);
    let rest = triangles_of(counts, indices, points, winding, before);
    triangle_lists_are_whole(counts, indices, points, winding, before);
    if at < rest.len() {
        only_faces_are_drawn(counts, indices, points, winding, before, at);
        let (f, t) = choose|f: nat, t: int|
            #![trigger fan_corners(indices, first_corner(counts, f) as int, t, winding)]
            f < before && 0 <= t < counts[f as int] - 2 && first_corner(counts, f)
                + counts[f as int] <= indices.len() && triangle_at(
                rest,
                at,
                fan_corners(indices, first_corner(counts, f) as int, t, winding).0,
                fan_corners(indices, first_corner(counts, f) as int, t, winding).1,
                fan_corners(indices, first_corner(counts, f) as int, t, winding).2,
            );
        let (a, b, c) = fan_corners(indices, first_corner(counts, f) as int, t, winding);
        assert(triangle_at(all, at, a, b, c));
    } else {
        let first = first_corner(counts, before);
        let count = corners(counts[before as int]);
        let own = fan(indices, first, count, points, winding);
        let within = at - rest.len();
        let t = fans_have_no_other_triangles(indices, first, count, points, winding, within);
        back_triangles_move(
            rest,
            own,
            within,
            fan_corners(indices, first as int, t, winding).0,
            fan_corners(indices, first as int, t, winding).1,
            fan_corners(indices, first as int, t, winding).2,
        );
        let (a, b, c) = fan_corners(indices, first as int, t, winding);
        assert(triangle_at(all, at, a, b, c));
    }
}

/// The first use of a point is the first corner that names it.
pub proof fn first_uses_name_the_point(indices: Seq<i32>, point: nat, count: nat)
    requires
        count <= indices.len(),
    ensures
        first_use(indices, point, count) matches Some(corner) ==> corner < count
            && indices[corner as int] == point && forall|k: int|
            0 <= k < corner ==> #[trigger] indices[k] != point,
        first_use(indices, point, count) is None ==> forall|k: int|
            0 <= k < count ==> #[trigger] indices[k] != point,
    decreases count,
{
    if count > 0 {
        first_uses_name_the_point(indices, point, (count - 1) as nat);
    }
}

/// The face of a corner is the one whose corners it is among.
pub proof fn faces_hold_their_corners(counts: Seq<i32>, corner: nat, faces: nat)
    ensures
        face_of(counts, corner, faces) matches Some(f) ==> f < faces && first_corner(counts, f)
            <= corner < first_corner(counts, f + 1),
        face_of(counts, corner, faces) is None ==> corner >= first_corner(counts, faces),
    decreases faces,
{
    if faces > 0 {
        faces_hold_their_corners(counts, corner, (faces - 1) as nat);
    }
}

/// Which element a point takes: the only one of a constant primvar, its own of
/// a varying one, that of the first corner at the point of a face-varying one,
/// and that of the face around this corner of a uniform one.
pub proof fn points_take_their_elements(counts: Seq<i32>, indices: Seq<i32>, point: nat)
    ensures
        element_of(Interpolation::Constant, counts, indices, point) == Some(0nat),
        element_of(Interpolation::Vertex, counts, indices, point) == Some(point),
        element_of(Interpolation::Varying, counts, indices, point) == Some(point),
        element_of(Interpolation::FaceVarying, counts, indices, point) matches Some(corner)
            ==> corner < indices.len() && indices[corner as int] == point && forall|k: int|
            0 <= k < corner ==> #[trigger] indices[k] != point,
        element_of(Interpolation::FaceVarying, counts, indices, point) is None ==> forall|k: int|
            0 <= k < indices.len() ==> #[trigger] indices[k] != point,
        element_of(Interpolation::Uniform, counts, indices, point) matches Some(f) ==> element_of(
            Interpolation::FaceVarying,
            counts,
            indices,
            point,
        ) is Some && first_corner(counts, f) <= element_of(
            Interpolation::FaceVarying,
            counts,
            indices,
            point,
        )->0 < first_corner(counts, f + 1),
        element_of(Interpolation::Uniform, counts, indices, point) is None ==> element_of(
            Interpolation::FaceVarying,
            counts,
            indices,
            point,
        ) is None || element_of(Interpolation::FaceVarying, counts, indices, point)->0
            >= first_corner(counts, counts.len()),
{
    first_uses_name_the_point(indices, point, indices.len());
    if let Some(corner) = first_use(indices, point, indices.len()) {
        faces_hold_their_corners(counts, corner, counts.len());
    }
}

/// An element is its own value without indices and the indexed one with them;
/// a value that is not there is not taken.
pub proof fn elements_take_their_values(element: nat, value_indices: Seq<i32>, values: nat)
    ensures
        value_indices.len() == 0 && element < values ==> value_of_element(
            Some(element),
            value_indices,
            values,
        ) == Some(element),
        value_indices.len() == 0 && element >= values ==> value_of_element(
            Some(element),
            value_indices,
            values,
        ) is None,
        element < value_indices.len() && 0 <= value_indices[element as int] < values
            ==> value_of_element(Some(element), value_indices, values) == Some(
            value_indices[element as int] as nat,
        ),
        element < value_indices.len() && !(0 <= value_indices[element as int] < values)
            ==> value_of_element(Some(element), value_indices, values) is None,
        0 < value_indices.len() <= element ==> value_of_element(
            Some(element),
            value_indices,
            values,
        ) is None,
        value_of_element(None, value_indices, values) is None,
{
}

} // verus!
