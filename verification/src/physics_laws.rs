//! What the decoded physics records hold of the stage.

use crate::assoc::pushed_members;
use crate::physics_data::{
    api_outcome, applies, approximation_of, as_real, as_rotation, as_vector, dof_of, drive_of,
    drives_of, joint_decodes, joint_kind_of, limit_of, limits_of, mesh_approximation,
    orientation_of, players, plays, position_of, CollisionApprox, Dof, DriveType, JointKind,
    ReadDrive, ReadJoint, ReadLimit, Role,
};
use crate::read::util::{as_text, first_of, targets_of};
use crate::stage::{Prim, Quad, Scalar, Stage, Triple, Value};
use crate::text::{opt_view, views};
use vstd::prelude::*;

verus! {

/// Every degree of freedom has exactly one token.
pub proof fn dofs_have_their_tokens(token: Seq<char>)
    ensures
        dof_of(token) == Some(Dof::TransX) <==> token == "transX"@,
        dof_of(token) == Some(Dof::TransY) <==> token == "transY"@,
        dof_of(token) == Some(Dof::TransZ) <==> token == "transZ"@,
        dof_of(token) == Some(Dof::RotX) <==> token == "rotX"@,
        dof_of(token) == Some(Dof::RotY) <==> token == "rotY"@,
        dof_of(token) == Some(Dof::RotZ) <==> token == "rotZ"@,
        dof_of(token) == Some(Dof::Linear) <==> token == "linear"@,
        dof_of(token) == Some(Dof::Angular) <==> token == "angular"@,
        dof_of(token) == Some(Dof::Distance) <==> token == "distance"@,
{
    reveal_strlit("transX");
    reveal_strlit("transY");
    reveal_strlit("transZ");
    reveal_strlit("rotX");
    reveal_strlit("rotY");
    reveal_strlit("rotZ");
    reveal_strlit("linear");
    reveal_strlit("angular");
    reveal_strlit("distance");
    assert("transX"@[0] == 't' && "transX"@[5] == 'X');
    assert("transY"@[0] == 't' && "transY"@[5] == 'Y');
    assert("transZ"@[0] == 't' && "transZ"@[5] == 'Z');
    assert("rotX"@[0] == 'r' && "rotX"@[3] == 'X');
    assert("rotY"@[0] == 'r' && "rotY"@[3] == 'Y');
    assert("rotZ"@[0] == 'r' && "rotZ"@[3] == 'Z');
    assert("linear"@[0] == 'l' && "angular"@[0] == 'a' && "distance"@[0] == 'd');
}

/// Every approximation has exactly one token.
pub proof fn approximations_have_their_tokens(token: Seq<char>)
    ensures
        approximation_of(token) == Some(CollisionApprox::Unspecified) <==> token == "none"@,
        approximation_of(token) == Some(CollisionApprox::ConvexHull) <==> token == "convexHull"@,
        approximation_of(token) == Some(CollisionApprox::ConvexDecomposition) <==> token
            == "convexDecomposition"@,
        approximation_of(token) == Some(CollisionApprox::BoundingSphere) <==> token
            == "boundingSphere"@,
        approximation_of(token) == Some(CollisionApprox::BoundingCube) <==> token
            == "boundingCube"@,
        approximation_of(token) == Some(CollisionApprox::MeshSimplification) <==> token
            == "meshSimplification"@,
{
    reveal_strlit("none");
    reveal_strlit("convexHull");
    reveal_strlit("convexDecomposition");
    reveal_strlit("boundingSphere");
    reveal_strlit("boundingCube");
    reveal_strlit("meshSimplification");
    assert("none"@.len() == 4 && "convexHull"@.len() == 10 && "convexDecomposition"@.len() == 19);
    assert("boundingSphere"@.len() == 14 && "boundingCube"@.len() == 12);
    assert("meshSimplification"@.len() == 18);
}

/// Every kind of joint has exactly one prim type.
pub proof fn joint_kinds_have_their_types(name: Seq<char>)
    ensures
        joint_kind_of(name) == Some(JointKind::Revolute) <==> name == "PhysicsRevoluteJoint"@,
        joint_kind_of(name) == Some(JointKind::Prismatic) <==> name == "PhysicsPrismaticJoint"@,
        joint_kind_of(name) == Some(JointKind::Spherical) <==> name == "PhysicsSphericalJoint"@,
        joint_kind_of(name) == Some(JointKind::Distance) <==> name == "PhysicsDistanceJoint"@,
        joint_kind_of(name) == Some(JointKind::Fixed) <==> name == "PhysicsFixedJoint"@,
        joint_kind_of(name) == Some(JointKind::Generic) <==> name == "PhysicsJoint"@,
{
    reveal_strlit("PhysicsRevoluteJoint");
    reveal_strlit("PhysicsPrismaticJoint");
    reveal_strlit("PhysicsSphericalJoint");
    reveal_strlit("PhysicsDistanceJoint");
    reveal_strlit("PhysicsFixedJoint");
    reveal_strlit("PhysicsJoint");
    assert("PhysicsRevoluteJoint"@[7] == 'R');
    assert("PhysicsPrismaticJoint"@[7] == 'P');
    assert("PhysicsSphericalJoint"@[7] == 'S');
    assert("PhysicsDistanceJoint"@[7] == 'D');
    assert("PhysicsFixedJoint"@[7] == 'F');
    assert("PhysicsJoint"@[7] == 'J');
}

/// Which value types the physics attributes take, and what stands in for an
/// unauthored frame: the origin, not turned.
pub proof fn physics_values_keep_their_components(value: Value)
    ensures
        value matches Value::Float(b) ==> as_real(Some(value)) == Some(Scalar::F32(b)),
        value matches Value::Double(b) ==> as_real(Some(value)) == Some(Scalar::F64(b)),
        !(value is Float || value is Double) ==> as_real(Some(value)) is None,
        as_real(None) is None,
        value matches Value::Vec3f(x, y, z) ==> as_vector(Some(value)) == Some(
            Triple { x: Scalar::F32(x), y: Scalar::F32(y), z: Scalar::F32(z) },
        ) && position_of(Some(value)) == (Triple {
            x: Scalar::F32(x),
            y: Scalar::F32(y),
            z: Scalar::F32(z),
        }),
        !(value is Vec3f) ==> as_vector(Some(value)) is None,
        as_vector(None) is None,
        value matches Value::Quatf(w, x, y, z) ==> as_rotation(Some(value)) == Some(
            Quad { w: Scalar::F32(w), x: Scalar::F32(x), y: Scalar::F32(y), z: Scalar::F32(z) },
        ) && orientation_of(Some(value)) == (Quad {
            w: Scalar::F32(w),
            x: Scalar::F32(x),
            y: Scalar::F32(y),
            z: Scalar::F32(z),
        }),
        !(value is Quatf) ==> as_rotation(Some(value)) is None,
        as_rotation(None) is None,
        position_of(None) == (Triple { x: Scalar::F32(0), y: Scalar::F32(0), z: Scalar::F32(0) }),
        orientation_of(None) == (Quad {
            w: Scalar::F32(0x3f80_0000),
            x: Scalar::F32(0),
            y: Scalar::F32(0),
            z: Scalar::F32(0),
        }),
{
}

/// The fields that every joint has are the properties of their names. A joint
/// is enabled, does not collide its bodies and belongs to its articulation
/// unless it is authored otherwise.
pub proof fn joint_fields_have_their_properties(
    stage: Stage,
    path: Seq<char>,
    kind: JointKind,
    j: ReadJoint,
)
    requires
        joint_decodes(stage, path, kind, j),
    ensures
        j.path@ == path,
        j.kind == kind,
        opt_view(j.body0) == first_of(targets_of(stage, path, "physics:body0"@)),
        opt_view(j.body1) == first_of(targets_of(stage, path, "physics:body1"@)),
        j.local_pos0 == position_of(stage.value_of(path, "physics:localPos0"@)),
        j.local_rot0 == orientation_of(stage.value_of(path, "physics:localRot0"@)),
        j.local_pos1 == position_of(stage.value_of(path, "physics:localPos1"@)),
        j.local_rot1 == orientation_of(stage.value_of(path, "physics:localRot1"@)),
        j.break_force == as_real(stage.value_of(path, "physics:breakForce"@)),
        j.break_torque == as_real(stage.value_of(path, "physics:breakTorque"@)),
        stage.value_of(path, "physics:collisionEnabled"@) matches Some(Value::Bool(b))
            ==> j.collision_enabled == b,
        stage.value_of(path, "physics:collisionEnabled"@) is None ==> !j.collision_enabled,
        stage.value_of(path, "physics:jointEnabled"@) matches Some(Value::Bool(b))
            ==> j.joint_enabled == b,
        stage.value_of(path, "physics:jointEnabled"@) is None ==> j.joint_enabled,
        stage.value_of(path, "physics:excludeFromArticulation"@) matches Some(Value::Bool(b))
            ==> j.exclude_from_articulation == b,
        stage.value_of(path, "physics:excludeFromArticulation"@) is None
            ==> !j.exclude_from_articulation,
{
}

/// Which fields depend on the kind of joint: an axis is read of revolute,
/// prismatic and spherical joints, limits of the first two, cone angles of a
/// spherical and distances of a distance joint.
pub proof fn joint_fields_depend_on_the_kind(
    stage: Stage,
    path: Seq<char>,
    kind: JointKind,
    j: ReadJoint,
)
    requires
        joint_decodes(stage, path, kind, j),
    ensures
        kind is Revolute || kind is Prismatic || kind is Spherical ==> opt_view(j.axis) == as_text(
            stage.value_of(path, "physics:axis"@),
        ),
        kind is Fixed || kind is Distance || kind is Generic ==> j.axis is None,
        kind is Revolute || kind is Prismatic ==> j.lower_limit == as_real(
            stage.value_of(path, "physics:lowerLimit"@),
        ) && j.upper_limit == as_real(stage.value_of(path, "physics:upperLimit"@)),
        !(kind is Revolute || kind is Prismatic) ==> j.lower_limit is None && j.upper_limit is None,
        kind is Distance ==> j.min_distance == as_real(
            stage.value_of(path, "physics:minDistance"@),
        ) && j.max_distance == as_real(stage.value_of(path, "physics:maxDistance"@)),
        !(kind is Distance) ==> j.min_distance is None && j.max_distance is None,
        kind is Spherical ==> j.cone_angle_0 == as_real(
            stage.value_of(path, "physics:coneAngle0Limit"@),
        ) && j.cone_angle_1 == as_real(stage.value_of(path, "physics:coneAngle1Limit"@)),
        !(kind is Spherical) ==> j.cone_angle_0 is None && j.cone_angle_1 is None,
{
}

/// An applied limit schema of a degree of freedom gives a limit with the bounds
/// authored for that instance, infinite where none is authored.
pub proof fn limits_have_their_bounds(stage: Stage, path: Seq<char>, token: Seq<char>, dof: Dof)
    requires
        dof_of(token) == Some(dof),
    ensures
        limit_of(stage, path, "PhysicsLimitAPI:"@ + token) matches Some(limit) && {
            let low = stage.value_of(path, "limit:"@ + token + ":physics:"@ + "low"@);
            let high = stage.value_of(path, "limit:"@ + token + ":physics:"@ + "high"@);
            &&& limit.dof == dof
            &&& as_real(low) matches Some(x) ==> limit.low == x
            &&& as_real(low) is None ==> limit.low == Scalar::F32(0xff80_0000)
            &&& as_real(high) matches Some(x) ==> limit.high == x
            &&& as_real(high) is None ==> limit.high == Scalar::F32(0x7f80_0000)
        },
{
    let head = "PhysicsLimitAPI:"@;
    let api = head + token;
    assert(api.skip(head.len() as int) =~= token);
    assert(head =~= api.subrange(0, head.len() as int));
}

/// An applied drive schema of a degree of freedom gives a drive with what is
/// authored for that instance; it is a force without stiffness or damping
/// where nothing is.
pub proof fn drives_have_their_settings(stage: Stage, path: Seq<char>, token: Seq<char>, dof: Dof)
    requires
        dof_of(token) == Some(dof),
    ensures
        drive_of(stage, path, "PhysicsDriveAPI:"@ + token) matches Some(drive) && {
            let own = "drive:"@ + token + ":physics:"@;
            &&& drive.dof == dof
            &&& drive.drive_type == DriveType::Acceleration <==> as_text(
                stage.value_of(path, own + "type"@),
            ) == Some("acceleration"@)
            &&& drive.target_position == as_real(stage.value_of(path, own + "targetPosition"@))
            &&& drive.target_velocity == as_real(stage.value_of(path, own + "targetVelocity"@))
            &&& drive.max_force == as_real(stage.value_of(path, own + "maxForce"@))
            &&& as_real(stage.value_of(path, own + "stiffness"@)) matches Some(x) ==> drive.stiffness
                == x
            &&& as_real(stage.value_of(path, own + "stiffness"@)) is None ==> drive.stiffness
                == Scalar::F32(0)
            &&& as_real(stage.value_of(path, own + "damping"@)) matches Some(x) ==> drive.damping
                == x
            &&& as_real(stage.value_of(path, own + "damping"@)) is None ==> drive.damping
                == Scalar::F32(0)
        },
{
    let head = "PhysicsDriveAPI:"@;
    let api = head + token;
    assert(api.skip(head.len() as int) =~= token);
    assert(head =~= api.subrange(0, head.len() as int));
}

/// A joint has the limits and drives of exactly its applied schemas.
pub proof fn joints_have_all_their_limits(
    stage: Stage,
    path: Seq<char>,
    apis: Seq<Seq<char>>,
    count: nat,
    limit: ReadLimit,
    drive: ReadDrive,
)
    requires
        count <= apis.len(),
    ensures
        limits_of(stage, path, apis, count).contains(limit) <==> exists|k: int|
            0 <= k < count && limit_of(stage, path, #[trigger] apis[k]) == Some(limit),
        drives_of(stage, path, apis, count).contains(drive) <==> exists|k: int|
            0 <= k < count && drive_of(stage, path, #[trigger] apis[k]) == Some(drive),
    decreases count,
{
    if count > 0 {
        let last = (count - 1) as nat;
        joints_have_all_their_limits(stage, path, apis, last, limit, drive);
        if let Some(own) = limit_of(stage, path, apis[last as int]) {
            pushed_members(limits_of(stage, path, apis, last), own, limit);
        }
        if let Some(own) = drive_of(stage, path, apis[last as int]) {
            pushed_members(drives_of(stage, path, apis, last), own, drive);
        }
        if limits_of(stage, path, apis, last).contains(limit) {
            let k = choose|k: int|
                0 <= k < last && limit_of(stage, path, #[trigger] apis[k]) == Some(limit);
            assert(limit_of(stage, path, apis[k]) == Some(limit));
        }
        if drives_of(stage, path, apis, last).contains(drive) {
            let k = choose|k: int|
                0 <= k < last && drive_of(stage, path, #[trigger] apis[k]) == Some(drive);
            assert(drive_of(stage, path, apis[k]) == Some(drive));
        }
    }
}

/// The schemas whose limits and drives a joint has are all that are applied.
pub proof fn joints_read_all_their_schemas(
    stage: Stage,
    path: Seq<char>,
    kind: JointKind,
    j: ReadJoint,
)
    requires
        joint_decodes(stage, path, kind, j),
    ensures
        stage.applied(path) matches Ok(apis) ==> j.limits@ == limits_of(
            stage,
            path,
            apis,
            apis.len(),
        ) && j.drives@ == drives_of(stage, path, apis, apis.len()),
{
}

/// How a collision mesh is approximated is read only with the mesh schema, and
/// a schema counts as applied exactly where it is listed.
pub proof fn collision_meshes_have_their_approximation(
    stage: Stage,
    path: Seq<char>,
    api: Seq<char>,
)
    ensures
        mesh_approximation(stage, path, false) is None,
        as_text(stage.value_of(path, "physics:approximation"@)) matches Some(token)
            ==> mesh_approximation(stage, path, true) == approximation_of(token),
        as_text(stage.value_of(path, "physics:approximation"@)) is None ==> mesh_approximation(
            stage,
            path,
            true,
        ) is None,
        stage.applied(path) matches Ok(list) ==> applies(stage, path, api) == Ok::<
            bool,
            Seq<char>,
        >(list.contains(api)),
        stage.applied(path) matches Err(e) ==> applies(stage, path, api) == Err::<bool, Seq<char>>(
            e,
        ),
{
}

/// What gives a prim each of its roles: its type for scenes, groups and joints,
/// an applied schema for the others.
pub proof fn roles_come_from_types_and_schemas(prim: Prim, list: Vec<String>)
    requires
        prim.api_schemas == Ok::<Vec<String>, String>(list),
    ensures
        plays(prim, Role::RigidBody) <==> views(list@).contains("PhysicsRigidBodyAPI"@),
        plays(prim, Role::ArticulationRoot) <==> views(list@).contains(
            "PhysicsArticulationRootAPI"@,
        ),
        plays(prim, Role::Material) <==> views(list@).contains("PhysicsMaterialAPI"@),
        plays(prim, Role::Collider) <==> views(list@).contains("PhysicsCollisionAPI"@),
        plays(prim, Role::FilteredPairs) <==> views(list@).contains("PhysicsFilteredPairsAPI"@),
        prim.prim_type matches Ok(Some(t)) ==> {
            &&& plays(prim, Role::Scene) <==> t@ == "PhysicsScene"@
            &&& plays(prim, Role::CollisionGroup) <==> t@ == "PhysicsCollisionGroup"@
            &&& plays(prim, Role::Joint) ==> "Physics"@.is_prefix_of(t@) && "Joint"@.is_suffix_of(t@)
            &&& "Physics"@.is_prefix_of(t@) && "Joint"@.is_suffix_of(t@) ==> plays(prim, Role::Joint)
        },
        !(prim.prim_type matches Ok(Some(_))) ==> !plays(prim, Role::Scene) && !plays(
            prim,
            Role::CollisionGroup,
        ) && !plays(prim, Role::Joint),
{
    reveal_strlit("PhysicsScene");
    reveal_strlit("PhysicsCollisionGroup");
    reveal_strlit("Physics");
    reveal_strlit("Joint");
    assert("PhysicsScene"@.len() == 12 && "PhysicsScene"@[11] == 'e');
    assert("PhysicsCollisionGroup"@.len() == 21 && "PhysicsCollisionGroup"@[20] == 'p');
    assert("Physics"@.len() == 7 && "Joint"@.len() == 5 && "Joint"@[4] == 't');
    if let Ok(Some(t)) = prim.prim_type {
        if "Joint"@.is_suffix_of(t@) {
            assert(t@[t@.len() - 1] == t@.subrange(t@.len() - 5, t@.len() as int)[4]);
            assert(t@[t@.len() - 1] == 't');
        }
    }
}

/// Every prim with a role is found, once, in stage order, and no other.
pub proof fn players_are_found_in_stage_order(prims: Seq<Prim>, role: Role, count: nat)
    requires
        count <= prims.len(),
    ensures
        forall|path: Seq<char>|
            #[trigger] players(prims, role, count).contains(path) <==> exists|k: int|
                0 <= k < count && plays(#[trigger] prims[k], role) && prims[k].path@ == path,
        count > 0 && plays(prims[count - 1], role) ==> players(prims, role, count) == players(
            prims,
            role,
            (count - 1) as nat,
        ) + seq![prims[count - 1].path@],
        count > 0 && !plays(prims[count - 1], role) ==> players(prims, role, count) == players(
            prims,
            role,
            (count - 1) as nat,
        ),
    decreases count,
{
    if count > 0 {
        let last = (count - 1) as nat;
        players_are_found_in_stage_order(prims, role, last);
        let rest = players(prims, role, last);
        let prim = prims[last as int];
        assert(rest.push(prim.path@) =~= rest + seq![prim.path@]);
        assert forall|path: Seq<char>|
            #[trigger] players(prims, role, count).contains(path) <==> exists|k: int|
            0 <= k < count && plays(#[trigger] prims[k], role) && prims[k].path@ == path by {
            pushed_members(rest, prim.path@, path);
            if rest.contains(path) {
                let k = choose|k: int|
                    0 <= k < last && plays(#[trigger] prims[k], role) && prims[k].path@ == path;
                assert(plays(prims[k], role));
            }
        }
    }
}

/// A record of an applied schema is there only with the schema: without it
/// there is none, and where the schemas cannot be read their error is reported.
pub proof fn records_need_their_schema<T>(
    stage: Stage,
    prim: Seq<char>,
    api: Seq<char>,
    r: Result<Option<T>, String>,
)
    requires
        api_outcome(stage, prim, api, r),
    ensures
        stage.applied(prim) matches Ok(list) ==> (!list.contains(api) ==> r == Ok::<
            Option<T>,
            String,
        >(None)),
        stage.applied(prim) matches Err(e) ==> (r matches Err(text) && text@ == e),
{
}

} // verus!
