//! Physics prims of a stage, decoded into the records that a simulation
//! builder consumes.

use crate::float::ONE;
use crate::read::util::{
    as_bool, as_text, bool_at, first_of, first_target_at, targets_at, targets_of, text_at,
};
use crate::stage::{Prim, Quad, Scalar, Stage, Triple, Value};
use crate::text::{copy, ends_with, opt_view, starts_with, str_eq, views};
use vstd::prelude::*;

verus! {

/// USD physics joint kind.
#[derive(Debug, Clone, Copy, PartialEq, Eq, Structural)]
pub enum JointKind {
    Fixed,
    Revolute,
    Prismatic,
    Spherical,
    Distance,
    Generic,
}

/// A joint degree of freedom.
#[derive(Debug, Clone, Copy, PartialEq, Eq, Structural)]
pub enum Dof {
    TransX,
    TransY,
    TransZ,
    RotX,
    RotY,
    RotZ,
    Linear,
    Angular,
    Distance,
}

/// Whether a drive applies a force or a mass-independent acceleration.
#[derive(Debug, Clone, Copy, PartialEq, Eq, Structural)]
pub enum DriveType {
    Force,
    Acceleration,
}

/// How a mesh's collision shape is approximated.
#[derive(Debug, Clone, Copy, PartialEq, Eq, Structural)]
pub enum CollisionApprox {
    /// The engine's own choice.
    Unspecified,
    ConvexHull,
    ConvexDecomposition,
    BoundingSphere,
    BoundingCube,
    MeshSimplification,
}

/// The bits of negative infinity.
pub const NO_LOW_LIMIT: u32 = 0xff80_0000;

/// The bits of infinity.
pub const NO_HIGH_LIMIT: u32 = 0x7f80_0000;

/// One authored `PhysicsLimitAPI` entry on a joint. Where a bound is not
/// authored it is infinite.
#[derive(Debug, Clone, Copy, PartialEq, Eq, Structural)]
pub struct ReadLimit {
    pub dof: Dof,
    pub low: Scalar,
    pub high: Scalar,
}

/// One authored `PhysicsDriveAPI` entry on a joint. Stiffness and damping are
/// zero where they are not authored.
#[derive(Debug, Clone, Copy, PartialEq, Eq, Structural)]
pub struct ReadDrive {
    pub dof: Dof,
    pub drive_type: DriveType,
    pub target_position: Option<Scalar>,
    pub target_velocity: Option<Scalar>,
    pub stiffness: Scalar,
    pub damping: Scalar,
    pub max_force: Option<Scalar>,
}

/// A decoded physics joint. Where a local frame is not authored, its position
/// is the origin and its rotation the identity.
#[derive(Debug)]
pub struct ReadJoint {
    pub path: String,
    pub kind: JointKind,
    pub body0: Option<String>,
    pub body1: Option<String>,
    pub local_pos0: Triple,
    pub local_rot0: Quad,
    pub local_pos1: Triple,
    pub local_rot1: Quad,
    pub axis: Option<String>,
    pub lower_limit: Option<Scalar>,
    pub upper_limit: Option<Scalar>,
    pub collision_enabled: bool,
    pub joint_enabled: bool,
    pub exclude_from_articulation: bool,
    pub break_force: Option<Scalar>,
    pub break_torque: Option<Scalar>,
    pub min_distance: Option<Scalar>,
    pub max_distance: Option<Scalar>,
    pub cone_angle_0: Option<Scalar>,
    pub cone_angle_1: Option<Scalar>,
    pub limits: Vec<ReadLimit>,
    pub drives: Vec<ReadDrive>,
}

#[derive(Debug, Clone, Copy, PartialEq, Eq, Structural)]
pub struct ReadScene {
    pub gravity_direction: Option<Triple>,
    pub gravity_magnitude: Option<Scalar>,
}

#[derive(Debug, Clone, Copy, PartialEq, Eq, Structural)]
pub struct ReadMass {
    pub mass: Option<Scalar>,
    pub density: Option<Scalar>,
    pub center_of_mass: Option<Triple>,
    pub diagonal_inertia: Option<Triple>,
    pub principal_axes: Option<Quad>,
}

#[derive(Debug)]
pub struct ReadCollisionShape {
    pub approximation: Option<CollisionApprox>,
    pub physics_material_path: Option<String>,
    pub collision_enabled: bool,
    pub simulation_owner: Option<String>,
}

#[derive(Debug, Clone, Copy, PartialEq, Eq, Structural)]
pub struct ReadPhysicsMaterial {
    pub static_friction: Option<Scalar>,
    pub dynamic_friction: Option<Scalar>,
    pub restitution: Option<Scalar>,
    pub density: Option<Scalar>,
}

#[derive(Debug, Clone)]
pub struct ReadFilteredPairs {
    pub filtered: Vec<String>,
}

#[derive(Debug, Clone)]
pub struct ReadCollisionGroup {
    pub merge_group: Option<String>,
    pub invert_filtered_groups: bool,
    pub members: Vec<String>,
    pub filtered_groups: Vec<String>,
}

/// Physics prim paths found on a stage, bucketed by role.
#[derive(Debug, Clone)]
pub struct PhysicsPrims {
    pub joints: Vec<String>,
    pub rigid_bodies: Vec<String>,
    pub scenes: Vec<String>,
    pub articulation_roots: Vec<String>,
    pub materials: Vec<String>,
    pub collision_groups: Vec<String>,
    pub filtered_pairs: Vec<String>,
    pub colliders: Vec<String>,
}

/// The degree of freedom that a token names.
pub open spec fn dof_of(token: Seq<char>) -> Option<Dof> {
    if token == "transX"@ {
        Some(Dof::TransX)
    } else if token == "transY"@ {
        Some(Dof::TransY)
    } else if token == "transZ"@ {
        Some(Dof::TransZ)
    } else if token == "rotX"@ {
        Some(Dof::RotX)
    } else if token == "rotY"@ {
        Some(Dof::RotY)
    } else if token == "rotZ"@ {
        Some(Dof::RotZ)
    } else if token == "linear"@ {
        Some(Dof::Linear)
    } else if token == "angular"@ {
        Some(Dof::Angular)
    } else if token == "distance"@ {
        Some(Dof::Distance)
    } else {
        None
    }
}

impl Dof {
    /// The degree of freedom that a token names.
    pub fn from_token(token: &str) -> (r: Option<Dof>)
        ensures
            r == dof_of(token@),
    {
        if str_eq(token, "transX") {
            Some(Dof::TransX)
        } else if str_eq(token, "transY") {
            Some(Dof::TransY)
        } else if str_eq(token, "transZ") {
            Some(Dof::TransZ)
        } else if str_eq(token, "rotX") {
            Some(Dof::RotX)
        } else if str_eq(token, "rotY") {
            Some(Dof::RotY)
        } else if str_eq(token, "rotZ") {
            Some(Dof::RotZ)
        } else if str_eq(token, "linear") {
            Some(Dof::Linear)
        } else if str_eq(token, "angular") {
            Some(Dof::Angular)
        } else if str_eq(token, "distance") {
            Some(Dof::Distance)
        } else {
            None
        }
    }
}

/// The approximation that a token names.
pub open spec fn approximation_of(token: Seq<char>) -> Option<CollisionApprox> {
    if token == "none"@ {
        Some(CollisionApprox::Unspecified)
    } else if token == "convexHull"@ {
        Some(CollisionApprox::ConvexHull)
    } else if token == "convexDecomposition"@ {
        Some(CollisionApprox::ConvexDecomposition)
    } else if token == "boundingSphere"@ {
        Some(CollisionApprox::BoundingSphere)
    } else if token == "boundingCube"@ {
        Some(CollisionApprox::BoundingCube)
    } else if token == "meshSimplification"@ {
        Some(CollisionApprox::MeshSimplification)
    } else {
        None
    }
}

/// The approximation that a token names.
pub fn approx_from_token(t: &str) -> (r: Option<CollisionApprox>)
    ensures
        r == approximation_of(t@),
{
    if str_eq(t, "none") {
        Some(CollisionApprox::Unspecified)
    } else if str_eq(t, "convexHull") {
        Some(CollisionApprox::ConvexHull)
    } else if str_eq(t, "convexDecomposition") {
        Some(CollisionApprox::ConvexDecomposition)
    } else if str_eq(t, "boundingSphere") {
        Some(CollisionApprox::BoundingSphere)
    } else if str_eq(t, "boundingCube") {
        Some(CollisionApprox::BoundingCube)
    } else if str_eq(t, "meshSimplification") {
        Some(CollisionApprox::MeshSimplification)
    } else {
        None
    }
}

/// A float or double.
pub open spec fn as_real(value: Option<Value>) -> Option<Scalar> {
    match value {
        Some(Value::Float(v)) => Some(Scalar::F32(v)),
        Some(Value::Double(v)) => Some(Scalar::F64(v)),
        _ => None,
    }
}

/// Three floats.
pub open spec fn as_vector(value: Option<Value>) -> Option<Triple> {
    match value {
        Some(Value::Vec3f(x, y, z)) => Some(
            Triple { x: Scalar::F32(x), y: Scalar::F32(y), z: Scalar::F32(z) },
        ),
        _ => None,
    }
}

/// A quaternion of floats.
pub open spec fn as_rotation(value: Option<Value>) -> Option<Quad> {
    match value {
        Some(Value::Quatf(w, x, y, z)) => Some(
            Quad { w: Scalar::F32(w), x: Scalar::F32(x), y: Scalar::F32(y), z: Scalar::F32(z) },
        ),
        _ => None,
    }
}

fn real_at(stage: &Stage, prim: &str, name: &str) -> (r: Option<Scalar>)
    ensures
        r == as_real(stage.value_of(prim@, name@)),
{
    match stage.value(prim, name) {
        Some(Value::Float(v)) => Some(Scalar::F32(*v)),
        Some(Value::Double(v)) => Some(Scalar::F64(*v)),
        _ => None,
    }
}

fn vector_at(stage: &Stage, prim: &str, name: &str) -> (r: Option<Triple>)
    ensures
        r == as_vector(stage.value_of(prim@, name@)),
{
    match stage.value(prim, name) {
        Some(Value::Vec3f(x, y, z)) => Some(
            Triple { x: Scalar::F32(*x), y: Scalar::F32(*y), z: Scalar::F32(*z) },
        ),
        _ => None,
    }
}

fn rotation_at(stage: &Stage, prim: &str, name: &str) -> (r: Option<Quad>)
    ensures
        r == as_rotation(stage.value_of(prim@, name@)),
{
    match stage.value(prim, name) {
        Some(Value::Quatf(w, x, y, z)) => Some(
            Quad {
                w: Scalar::F32(*w),
                x: Scalar::F32(*x),
                y: Scalar::F32(*y),
                z: Scalar::F32(*z),
            },
        ),
        _ => None,
    }
}

/// The number, or the 32-bit float with the bits `default`.
pub open spec fn real_or(v: Option<Value>, default: u32) -> Scalar {
    match as_real(v) {
        Some(number) => number,
        None => Scalar::F32(default),
    }
}

fn real_or_at(stage: &Stage, prim: &str, name: &str, default: u32) -> (r: Scalar)
    ensures
        r == real_or(stage.value_of(prim@, name@), default),
{
    match real_at(stage, prim, name) {
        Some(number) => number,
        None => Scalar::F32(default),
    }
}

/// The vector, or the origin.
pub open spec fn position_of(v: Option<Value>) -> Triple {
    match as_vector(v) {
        Some(vector) => vector,
        None => Triple { x: Scalar::F32(0), y: Scalar::F32(0), z: Scalar::F32(0) },
    }
}

fn position_at(stage: &Stage, prim: &str, name: &str) -> (r: Triple)
    ensures
        r == position_of(stage.value_of(prim@, name@)),
{
    match vector_at(stage, prim, name) {
        Some(vector) => vector,
        None => Triple { x: Scalar::F32(0), y: Scalar::F32(0), z: Scalar::F32(0) },
    }
}

/// The rotation, or the identity.
pub open spec fn orientation_of(v: Option<Value>) -> Quad {
    match as_rotation(v) {
        Some(rotation) => rotation,
        None => Quad {
            w: Scalar::F32(ONE),
            x: Scalar::F32(0),
            y: Scalar::F32(0),
            z: Scalar::F32(0),
        },
    }
}

fn orientation_at(stage: &Stage, prim: &str, name: &str) -> (r: Quad)
    ensures
        r == orientation_of(stage.value_of(prim@, name@)),
{
    match rotation_at(stage, prim, name) {
        Some(rotation) => rotation,
        None => Quad {
            w: Scalar::F32(ONE),
            x: Scalar::F32(0),
            y: Scalar::F32(0),
            z: Scalar::F32(0),
        },
    }
}

/// A boolean, or what it is where none is authored.
pub open spec fn flag_of(stage: Stage, prim: Seq<char>, name: Seq<char>, otherwise: bool) -> bool {
    match as_bool(stage.value_of(prim, name)) {
        Some(b) => b,
        None => otherwise,
    }
}

fn flag_at(stage: &Stage, prim: &str, name: &str, otherwise: bool) -> (r: bool)
    ensures
        r == flag_of(*stage, prim@, name@, otherwise),
{
    match bool_at(stage, prim, name) {
        Some(b) => b,
        None => otherwise,
    }
}

/// Whether the prim has the applied schema, or the error of reading them.
pub open spec fn applies(stage: Stage, prim: Seq<char>, api: Seq<char>) -> Result<bool, Seq<char>> {
    match stage.applied(prim) {
        Err(e) => Err(e),
        Ok(list) => Ok(list.contains(api)),
    }
}

fn holds(list: &Vec<String>, item: &str) -> (r: bool)
    ensures
        r == views(list@).contains(item@),
{
    for i in 0..list.len()
        invariant
            forall|k: int| 0 <= k < i ==> (#[trigger] views(list@)[k]) != item@,
    {
        if str_eq(list[i].as_str(), item) {
            assert(views(list@)[i as int] == item@);
            return true;
        }
    }
    assert(views(list@).len() == list@.len());
    false
}

fn has_api(stage: &Stage, prim: &str, api: &str) -> (r: Result<bool, String>)
    ensures
        match applies(*stage, prim@, api@) {
            Err(e) => r matches Err(text) && text@ == e,
            Ok(found) => r == Ok::<bool, String>(found),
        },
{
    match stage.prim(prim) {
        None => {
            assert(!Seq::<Seq<char>>::empty().contains(api@));
            Ok(false)
        },
        Some(p) => match &p.api_schemas {
            Err(e) => Err(copy(e.as_str())),
            Ok(list) => Ok(holds(list, api)),
        },
    }
}

/// The outcome of reading a record that only a prim with the applied schema
/// has.
pub open spec fn api_outcome<T>(
    stage: Stage,
    prim: Seq<char>,
    api: Seq<char>,
    r: Result<Option<T>, String>,
) -> bool {
    match applies(stage, prim, api) {
        Err(e) => r matches Err(text) && text@ == e,
        Ok(false) => r == Ok::<Option<T>, String>(None),
        Ok(true) => true,
    }
}

/// The physics scene at `path`; `None` for a prim of another type.
pub fn read_physics_scene(stage: &Stage, path: &str) -> (r: Result<Option<ReadScene>, String>)
    ensures
        match stage.type_of(path@) {
            Err(e) => r matches Err(text) && text@ == e,
            Ok(kind) => if kind != Some("PhysicsScene"@) {
                r == Ok::<Option<ReadScene>, String>(None)
            } else {
                r == Ok::<Option<ReadScene>, String>(
                    Some(
                        ReadScene {
                            gravity_direction: as_vector(
                                stage.value_of(path@, "physics:gravityDirection"@),
                            ),
                            gravity_magnitude: as_real(
                                stage.value_of(path@, "physics:gravityMagnitude"@),
                            ),
                        },
                    ),
                )
            },
        },
{
    match crate::read::util::has_type(stage, path, "PhysicsScene") {
        Err(e) => return Err(e),
        Ok(false) => return Ok(None),
        Ok(true) => {},
    }
    Ok(
        Some(
            ReadScene {
                gravity_direction: vector_at(stage, path, "physics:gravityDirection"),
                gravity_magnitude: real_at(stage, path, "physics:gravityMagnitude"),
            },
        ),
    )
}

/// The mass properties of `path`; `None` without the mass schema.
pub fn read_mass(stage: &Stage, path: &str) -> (r: Result<Option<ReadMass>, String>)
    ensures
        api_outcome(*stage, path@, "PhysicsMassAPI"@, r),
        applies(*stage, path@, "PhysicsMassAPI"@) == Ok::<bool, Seq<char>>(true) ==> r == Ok::<
            Option<ReadMass>,
            String,
        >(
            Some(
                ReadMass {
                    mass: as_real(stage.value_of(path@, "physics:mass"@)),
                    density: as_real(stage.value_of(path@, "physics:density"@)),
                    center_of_mass: as_vector(stage.value_of(path@, "physics:centerOfMass"@)),
                    diagonal_inertia: as_vector(stage.value_of(path@, "physics:diagonalInertia"@)),
                    principal_axes: as_rotation(stage.value_of(path@, "physics:principalAxes"@)),
                },
            ),
        ),
{
    match has_api(stage, path, "PhysicsMassAPI") {
        Err(e) => return Err(e),
        Ok(false) => return Ok(None),
        Ok(true) => {},
    }
    Ok(
        Some(
            ReadMass {
                mass: real_at(stage, path, "physics:mass"),
                density: real_at(stage, path, "physics:density"),
                center_of_mass: vector_at(stage, path, "physics:centerOfMass"),
                diagonal_inertia: vector_at(stage, path, "physics:diagonalInertia"),
                principal_axes: rotation_at(stage, path, "physics:principalAxes"),
            },
        ),
    )
}

/// The first target of a relationship, where it can be read.
pub open spec fn bound_to(stage: Stage, prim: Seq<char>, name: Seq<char>) -> Option<Seq<char>> {
    first_of(targets_of(stage, prim, name))
}

/// How the collision mesh of a prim with the mesh schema is approximated.
pub open spec fn mesh_approximation(stage: Stage, path: Seq<char>, has_mesh: bool) -> Option<
    CollisionApprox,
> {
    if has_mesh {
        match as_text(stage.value_of(path, "physics:approximation"@)) {
            Some(token) => approximation_of(token),
            None => None,
        }
    } else {
        None
    }
}

/// The collision shape of `path`; `None` without the collision schema. The
/// material is the one bound for physics, else the one bound for display.
pub fn read_collision_shape(stage: &Stage, path: &str) -> (r: Result<
    Option<ReadCollisionShape>,
    String,
>)
    ensures
        api_outcome(*stage, path@, "PhysicsCollisionAPI"@, r),
        applies(*stage, path@, "PhysicsCollisionAPI"@) == Ok::<bool, Seq<char>>(true) ==> (
        r matches Ok(Some(c)) && c.approximation == mesh_approximation(
            *stage,
            path@,
            applies(*stage, path@, "PhysicsMeshCollisionAPI"@) == Ok::<bool, Seq<char>>(true),
        ) && opt_view(c.physics_material_path) == (match bound_to(
            *stage,
            path@,
            "material:binding:physics"@,
        ) {
            Some(m) => Some(m),
            None => bound_to(*stage, path@, "material:binding"@),
        }) && c.collision_enabled == flag_of(*stage, path@, "physics:collisionEnabled"@, true)
            && c.simulation_owner is None),
{
    match has_api(stage, path, "PhysicsCollisionAPI") {
        Err(e) => return Err(e),
        Ok(false) => return Ok(None),
        Ok(true) => {},
    }
    let has_mesh = match has_api(stage, path, "PhysicsMeshCollisionAPI") {
        Err(e) => return Err(e),
        Ok(found) => found,
    };
    let approximation = if has_mesh {
        match text_at(stage, path, "physics:approximation") {
            Some(token) => approx_from_token(token.as_str()),
            None => None,
        }
    } else {
        None
    };
    let physics_material_path = match first_target_at(stage, path, "material:binding:physics") {
        Some(material) => Some(material),
        None => first_target_at(stage, path, "material:binding"),
    };
    Ok(
        Some(
            ReadCollisionShape {
                approximation,
                physics_material_path,
                collision_enabled: flag_at(stage, path, "physics:collisionEnabled", true),
                simulation_owner: None,
            },
        ),
    )
}

/// The physics material of `path`; `None` without the material schema.
pub fn read_physics_material(stage: &Stage, path: &str) -> (r: Result<
    Option<ReadPhysicsMaterial>,
    String,
>)
    ensures
        api_outcome(*stage, path@, "PhysicsMaterialAPI"@, r),
        applies(*stage, path@, "PhysicsMaterialAPI"@) == Ok::<bool, Seq<char>>(true) ==> r == Ok::<
            Option<ReadPhysicsMaterial>,
            String,
        >(
            Some(
                ReadPhysicsMaterial {
                    static_friction: as_real(stage.value_of(path@, "physics:staticFriction"@)),
                    dynamic_friction: as_real(stage.value_of(path@, "physics:dynamicFriction"@)),
                    restitution: as_real(stage.value_of(path@, "physics:restitution"@)),
                    density: as_real(stage.value_of(path@, "physics:density"@)),
                },
            ),
        ),
{
    match has_api(stage, path, "PhysicsMaterialAPI") {
        Err(e) => return Err(e),
        Ok(false) => return Ok(None),
        Ok(true) => {},
    }
    Ok(
        Some(
            ReadPhysicsMaterial {
                static_friction: real_at(stage, path, "physics:staticFriction"),
                dynamic_friction: real_at(stage, path, "physics:dynamicFriction"),
                restitution: real_at(stage, path, "physics:restitution"),
                density: real_at(stage, path, "physics:density"),
            },
        ),
    )
}

/// The filtered pairs of `path`; `None` without the filtered-pairs schema.
pub fn read_filtered_pairs(stage: &Stage, path: &str) -> (r: Result<
    Option<ReadFilteredPairs>,
    String,
>)
    ensures
        api_outcome(*stage, path@, "PhysicsFilteredPairsAPI"@, r),
        applies(*stage, path@, "PhysicsFilteredPairsAPI"@) == Ok::<bool, Seq<char>>(true) ==> (
        r matches Ok(Some(p)) && views(p.filtered@) == targets_of(
            *stage,
            path@,
            "physics:filteredPairs"@,
        )),
{
    match has_api(stage, path, "PhysicsFilteredPairsAPI") {
        Err(e) => return Err(e),
        Ok(false) => return Ok(None),
        Ok(true) => {},
    }
    Ok(Some(ReadFilteredPairs { filtered: targets_at(stage, path, "physics:filteredPairs") }))
}

/// The collision group at `path`; `None` for a prim of another type. Members
/// are not read.
pub fn read_collision_group(stage: &Stage, path: &str) -> (r: Result<
    Option<ReadCollisionGroup>,
    String,
>)
    ensures
        match stage.type_of(path@) {
            Err(e) => r matches Err(text) && text@ == e,
            Ok(kind) => if kind != Some("PhysicsCollisionGroup"@) {
                r == Ok::<Option<ReadCollisionGroup>, String>(None)
            } else {
                r matches Ok(Some(g)) && opt_view(g.merge_group) == as_text(
                    stage.value_of(path@, "physics:mergeGroup"@),
                ) && g.invert_filtered_groups == flag_of(
                    *stage,
                    path@,
                    "physics:invertFilteredGroups"@,
                    false,
                ) && g.members@.len() == 0 && views(g.filtered_groups@) == targets_of(
                    *stage,
                    path@,
                    "physics:filteredGroups"@,
                )
            },
        },
{
    match crate::read::util::has_type(stage, path, "PhysicsCollisionGroup") {
        Err(e) => return Err(e),
        Ok(false) => return Ok(None),
        Ok(true) => {},
    }
    Ok(
        Some(
            ReadCollisionGroup {
                merge_group: text_at(stage, path, "physics:mergeGroup"),
                invert_filtered_groups: flag_at(
                    stage,
                    path,
                    "physics:invertFilteredGroups",
                    false,
                ),
                members: Vec::new(),
                filtered_groups: targets_at(stage, path, "physics:filteredGroups"),
            },
        ),
    )
}

/// The joint kind that a prim type names.
pub open spec fn joint_kind_of(prim_type: Seq<char>) -> Option<JointKind> {
    if prim_type == "PhysicsRevoluteJoint"@ {
        Some(JointKind::Revolute)
    } else if prim_type == "PhysicsPrismaticJoint"@ {
        Some(JointKind::Prismatic)
    } else if prim_type == "PhysicsSphericalJoint"@ {
        Some(JointKind::Spherical)
    } else if prim_type == "PhysicsDistanceJoint"@ {
        Some(JointKind::Distance)
    } else if prim_type == "PhysicsFixedJoint"@ {
        Some(JointKind::Fixed)
    } else if prim_type == "PhysicsJoint"@ {
        Some(JointKind::Generic)
    } else {
        None
    }
}

/// The joint kind that a prim type names.
pub fn joint_kind(prim_type: &str) -> (r: Option<JointKind>)
    ensures
        r == joint_kind_of(prim_type@),
{
    if str_eq(prim_type, "PhysicsRevoluteJoint") {
        Some(JointKind::Revolute)
    } else if str_eq(prim_type, "PhysicsPrismaticJoint") {
        Some(JointKind::Prismatic)
    } else if str_eq(prim_type, "PhysicsSphericalJoint") {
        Some(JointKind::Spherical)
    } else if str_eq(prim_type, "PhysicsDistanceJoint") {
        Some(JointKind::Distance)
    } else if str_eq(prim_type, "PhysicsFixedJoint") {
        Some(JointKind::Fixed)
    } else if str_eq(prim_type, "PhysicsJoint") {
        Some(JointKind::Generic)
    } else {
        None
    }
}

/// The property of a multi-apply instance: family, instance and attribute.
pub open spec fn instance_property(family: Seq<char>, instance: Seq<char>, name: Seq<char>) -> Seq<
    char,
> {
    family + instance + ":physics:"@ + name
}

fn instance_name(family: &str, instance: &str, name: &str) -> (r: String)
    ensures
        r@ == instance_property(family@, instance@, name@),
{
    let mut out = copy(family);
    out.append(instance);
    out.append(":physics:");
    out.append(name);
    out
}

/// The applied schemas of a prim, where they can be read.
pub open spec fn readable_schemas(stage: Stage, prim: Seq<char>) -> Seq<Seq<char>> {
    match stage.applied(prim) {
        Ok(list) => list,
        Err(_) => Seq::empty(),
    }
}

/// What an applied limit schema says.
pub open spec fn limit_of(stage: Stage, path: Seq<char>, api: Seq<char>) -> Option<ReadLimit> {
    if "PhysicsLimitAPI:"@.is_prefix_of(api) {
        let instance = api.skip("PhysicsLimitAPI:"@.len() as int);
        match dof_of(instance) {
            Some(dof) => Some(
                ReadLimit {
                    dof,
                    low: real_or(
                        stage.value_of(path, instance_property("limit:"@, instance, "low"@)),
                        NO_LOW_LIMIT,
                    ),
                    high: real_or(
                        stage.value_of(path, instance_property("limit:"@, instance, "high"@)),
                        NO_HIGH_LIMIT,
                    ),
                },
            ),
            None => None,
        }
    } else {
        None
    }
}

/// The drive type that a token names; a force without one.
pub open spec fn drive_type_of(token: Option<Seq<char>>) -> DriveType {
    if token == Some("acceleration"@) {
        DriveType::Acceleration
    } else {
        DriveType::Force
    }
}

/// What an applied drive schema says.
pub open spec fn drive_of(stage: Stage, path: Seq<char>, api: Seq<char>) -> Option<ReadDrive> {
    if "PhysicsDriveAPI:"@.is_prefix_of(api) {
        let instance = api.skip("PhysicsDriveAPI:"@.len() as int);
        match dof_of(instance) {
            Some(dof) => Some(
                ReadDrive {
                    dof,
                    drive_type: drive_type_of(
                        as_text(
                            stage.value_of(path, instance_property("drive:"@, instance, "type"@)),
                        ),
                    ),
                    target_position: as_real(
                        stage.value_of(
                            path,
                            instance_property("drive:"@, instance, "targetPosition"@),
                        ),
                    ),
                    target_velocity: as_real(
                        stage.value_of(
                            path,
                            instance_property("drive:"@, instance, "targetVelocity"@),
                        ),
                    ),
                    stiffness: real_or(
                        stage.value_of(path, instance_property("drive:"@, instance, "stiffness"@)),
                        0,
                    ),
                    damping: real_or(
                        stage.value_of(path, instance_property("drive:"@, instance, "damping"@)),
                        0,
                    ),
                    max_force: as_real(
                        stage.value_of(path, instance_property("drive:"@, instance, "maxForce"@)),
                    ),
                },
            ),
            None => None,
        }
    } else {
        None
    }
}

/// The limits that the first `count` applied schemas say.
pub open spec fn limits_of(stage: Stage, path: Seq<char>, apis: Seq<Seq<char>>, count: nat) -> Seq<
    ReadLimit,
>
    decreases count,
{
    if count == 0 {
        Seq::empty()
    } else {
        let sofar = limits_of(stage, path, apis, (count - 1) as nat);
        match limit_of(stage, path, apis[count - 1]) {
            Some(limit) => sofar.push(limit),
            None => sofar,
        }
    }
}

/// The drives that the first `count` applied schemas say.
pub open spec fn drives_of(stage: Stage, path: Seq<char>, apis: Seq<Seq<char>>, count: nat) -> Seq<
    ReadDrive,
>
    decreases count,
{
    if count == 0 {
        Seq::empty()
    } else {
        let sofar = drives_of(stage, path, apis, (count - 1) as nat);
        match drive_of(stage, path, apis[count - 1]) {
            Some(drive) => sofar.push(drive),
            None => sofar,
        }
    }
}

fn strip(text: &str, prefix: &str) -> (r: Option<String>)
    ensures
        match r {
            Some(rest) => prefix@.is_prefix_of(text@) && rest@ == text@.skip(prefix@.len() as int),
            None => !prefix@.is_prefix_of(text@),
        },
{
    if !starts_with(text, prefix) {
        return None;
    }
    let k: usize = prefix.unicode_len();
    let n: usize = text.unicode_len();
    let rest = text.substring_char(k, n).to_owned();
    assert(rest@ =~= text@.skip(prefix@.len() as int));
    Some(rest)
}

fn applied_schemas(stage: &Stage, path: &str) -> (r: Vec<String>)
    ensures
        views(r@) == readable_schemas(*stage, path@),
{
    let none: Vec<String> = Vec::new();
    assert(views(none@) =~= Seq::<Seq<char>>::empty());
    match stage.prim(path) {
        None => none,
        Some(p) => match &p.api_schemas {
            Ok(list) => crate::text::copy_all(list),
            Err(_) => none,
        },
    }
}

/// Per-DOF limit entries applied to a joint.
fn read_joint_limits(stage: &Stage, path: &str) -> (r: Vec<ReadLimit>)
    ensures
        r@ == limits_of(
            *stage,
            path@,
            readable_schemas(*stage, path@),
            readable_schemas(*stage, path@).len(),
        ),
{
    let apis = applied_schemas(stage, path);
    let ghost all = views(apis@);
    let mut out: Vec<ReadLimit> = Vec::new();
    for i in 0..apis.len()
        invariant
            all == views(apis@),
            out@ == limits_of(*stage, path@, all, i as nat),
    {
        assert(all[i as int] == apis@[i as int]@);
        if let Some(instance) = strip(apis[i].as_str(), "PhysicsLimitAPI:") {
            if let Some(dof) = Dof::from_token(instance.as_str()) {
                let low = instance_name("limit:", instance.as_str(), "low");
                let high = instance_name("limit:", instance.as_str(), "high");
                out.push(
                    ReadLimit {
                        dof,
                        low: real_or_at(stage, path, low.as_str(), NO_LOW_LIMIT),
                        high: real_or_at(stage, path, high.as_str(), NO_HIGH_LIMIT),
                    },
                );
            }
        }
    }
    assert(all.len() == apis@.len());
    out
}

fn drive_type_at(stage: &Stage, path: &str, name: &str) -> (r: DriveType)
    ensures
        r == drive_type_of(as_text(stage.value_of(path@, name@))),
{
    match text_at(stage, path, name) {
        Some(token) => if str_eq(token.as_str(), "acceleration") {
            DriveType::Acceleration
        } else {
            DriveType::Force
        },
        None => DriveType::Force,
    }
}

/// Per-DOF drive entries applied to a joint.
fn read_joint_drives(stage: &Stage, path: &str) -> (r: Vec<ReadDrive>)
    ensures
        r@ == drives_of(
            *stage,
            path@,
            readable_schemas(*stage, path@),
            readable_schemas(*stage, path@).len(),
        ),
{
    let apis = applied_schemas(stage, path);
    let ghost all = views(apis@);
    let mut out: Vec<ReadDrive> = Vec::new();
    for i in 0..apis.len()
        invariant
            all == views(apis@),
            out@ == drives_of(*stage, path@, all, i as nat),
    {
        assert(all[i as int] == apis@[i as int]@);
        if let Some(instance) = strip(apis[i].as_str(), "PhysicsDriveAPI:") {
            let name = instance.as_str();
            if let Some(dof) = Dof::from_token(name) {
                out.push(
                    ReadDrive {
                        dof,
                        drive_type: drive_type_at(
                            stage,
                            path,
                            instance_name("drive:", name, "type").as_str(),
                        ),
                        target_position: real_at(
                            stage,
                            path,
                            instance_name("drive:", name, "targetPosition").as_str(),
                        ),
                        target_velocity: real_at(
                            stage,
                            path,
                            instance_name("drive:", name, "targetVelocity").as_str(),
                        ),
                        stiffness: real_or_at(
                            stage,
                            path,
                            instance_name("drive:", name, "stiffness").as_str(),
                            0,
                        ),
                        damping: real_or_at(
                            stage,
                            path,
                            instance_name("drive:", name, "damping").as_str(),
                            0,
                        ),
                        max_force: real_at(
                            stage,
                            path,
                            instance_name("drive:", name, "maxForce").as_str(),
                        ),
                    },
                );
            }
        }
    }
    assert(all.len() == apis@.len());
    out
}

/// A number that only some kinds of joint have.
pub open spec fn real_for(stage: Stage, path: Seq<char>, name: Seq<char>, wanted: bool) -> Option<
    Scalar,
> {
    if wanted {
        as_real(stage.value_of(path, name))
    } else {
        None
    }
}

fn real_if(stage: &Stage, path: &str, name: &str, wanted: bool) -> (r: Option<Scalar>)
    ensures
        r == real_for(*stage, path@, name@, wanted),
{
    if wanted {
        real_at(stage, path, name)
    } else {
        None
    }
}

/// The record holds what the properties of a joint of this kind decode to.
pub open spec fn joint_decodes(stage: Stage, path: Seq<char>, kind: JointKind, j: ReadJoint) -> bool {
    let turns = kind == JointKind::Revolute || kind == JointKind::Prismatic;
    let apis = readable_schemas(stage, path);
    &&& j.path@ == path
    &&& j.kind == kind
    &&& opt_view(j.body0) == bound_to(stage, path, "physics:body0"@)
    &&& opt_view(j.body1) == bound_to(stage, path, "physics:body1"@)
    &&& j.local_pos0 == position_of(stage.value_of(path, "physics:localPos0"@))
    &&& j.local_rot0 == orientation_of(stage.value_of(path, "physics:localRot0"@))
    &&& j.local_pos1 == position_of(stage.value_of(path, "physics:localPos1"@))
    &&& j.local_rot1 == orientation_of(stage.value_of(path, "physics:localRot1"@))
    &&& opt_view(j.axis) == (if turns || kind == JointKind::Spherical {
        as_text(stage.value_of(path, "physics:axis"@))
    } else {
        None
    })
    &&& j.lower_limit == real_for(stage, path, "physics:lowerLimit"@, turns)
    &&& j.upper_limit == real_for(stage, path, "physics:upperLimit"@, turns)
    &&& j.collision_enabled == flag_of(stage, path, "physics:collisionEnabled"@, false)
    &&& j.joint_enabled == flag_of(stage, path, "physics:jointEnabled"@, true)
    &&& j.exclude_from_articulation == flag_of(
        stage,
        path,
        "physics:excludeFromArticulation"@,
        false,
    )
    &&& j.break_force == as_real(stage.value_of(path, "physics:breakForce"@))
    &&& j.break_torque == as_real(stage.value_of(path, "physics:breakTorque"@))
    &&& j.min_distance == real_for(
        stage,
        path,
        "physics:minDistance"@,
        kind == JointKind::Distance,
    )
    &&& j.max_distance == real_for(
        stage,
        path,
        "physics:maxDistance"@,
        kind == JointKind::Distance,
    )
    &&& j.cone_angle_0 == real_for(
        stage,
        path,
        "physics:coneAngle0Limit"@,
        kind == JointKind::Spherical,
    )
    &&& j.cone_angle_1 == real_for(
        stage,
        path,
        "physics:coneAngle1Limit"@,
        kind == JointKind::Spherical,
    )
    &&& j.limits@ == limits_of(stage, path, apis, apis.len())
    &&& j.drives@ == drives_of(stage, path, apis, apis.len())
}

/// The joint at `path`; `None` for a prim that is no joint.
pub fn read_joint(stage: &Stage, path: &str) -> (r: Result<Option<ReadJoint>, String>)
    ensures
        match stage.type_of(path@) {
            Err(e) => r matches Err(text) && text@ == e,
            Ok(None) => r == Ok::<Option<ReadJoint>, String>(None),
            Ok(Some(name)) => match joint_kind_of(name) {
                None => r == Ok::<Option<ReadJoint>, String>(None),
                Some(kind) => r matches Ok(Some(j)) && joint_decodes(*stage, path@, kind, j),
            },
        },
{
    let name = match stage.prim_type(path) {
        Err(e) => return Err(e),
        Ok(None) => return Ok(None),
        Ok(Some(name)) => name,
    };
    let kind = match joint_kind(name.as_str()) {
        Some(kind) => kind,
        None => return Ok(None),
    };
    let turns = kind == JointKind::Revolute || kind == JointKind::Prismatic;
    let swings = kind == JointKind::Spherical;
    let spans = kind == JointKind::Distance;
    let axis = if turns || swings {
        text_at(stage, path, "physics:axis")
    } else {
        None
    };
    Ok(
        Some(
            ReadJoint {
                path: copy(path),
                kind,
                body0: first_target_at(stage, path, "physics:body0"),
                body1: first_target_at(stage, path, "physics:body1"),
                local_pos0: position_at(stage, path, "physics:localPos0"),
                local_rot0: orientation_at(stage, path, "physics:localRot0"),
                local_pos1: position_at(stage, path, "physics:localPos1"),
                local_rot1: orientation_at(stage, path, "physics:localRot1"),
                axis,
                lower_limit: real_if(stage, path, "physics:lowerLimit", turns),
                upper_limit: real_if(stage, path, "physics:upperLimit", turns),
                collision_enabled: flag_at(stage, path, "physics:collisionEnabled", false),
                joint_enabled: flag_at(stage, path, "physics:jointEnabled", true),
                exclude_from_articulation: flag_at(
                    stage,
                    path,
                    "physics:excludeFromArticulation",
                    false,
                ),
                break_force: real_at(stage, path, "physics:breakForce"),
                break_torque: real_at(stage, path, "physics:breakTorque"),
                min_distance: real_if(stage, path, "physics:minDistance", spans),
                max_distance: real_if(stage, path, "physics:maxDistance", spans),
                cone_angle_0: real_if(stage, path, "physics:coneAngle0Limit", swings),
                cone_angle_1: real_if(stage, path, "physics:coneAngle1Limit", swings),
                limits: read_joint_limits(stage, path),
                drives: read_joint_drives(stage, path),
            },
        ),
    )
}

/// A role that a physics prim can have.
#[derive(Debug, Clone, Copy, PartialEq, Eq, Structural)]
pub enum Role {
    Joint,
    RigidBody,
    Scene,
    ArticulationRoot,
    Material,
    CollisionGroup,
    FilteredPairs,
    Collider,
}

/// The authored type of a prim; empty where there is none.
pub open spec fn type_text(prim: Prim) -> Seq<char> {
    match prim.prim_type {
        Ok(Some(t)) => t@,
        _ => Seq::empty(),
    }
}

/// The prim has the applied schema.
pub open spec fn carries(prim: Prim, api: Seq<char>) -> bool {
    prim.api_schemas matches Ok(list) && views(list@).contains(api)
}

/// The prim has the role: by its type for scenes, groups and joints, by an
/// applied schema for the others.
pub open spec fn plays(prim: Prim, role: Role) -> bool {
    match role {
        Role::Scene => type_text(prim) == "PhysicsScene"@,
        Role::CollisionGroup => type_text(prim) == "PhysicsCollisionGroup"@,
        Role::Joint => type_text(prim) != "PhysicsScene"@ && type_text(prim)
            != "PhysicsCollisionGroup"@ && "Physics"@.is_prefix_of(type_text(prim))
            && "Joint"@.is_suffix_of(type_text(prim)),
        Role::RigidBody => carries(prim, "PhysicsRigidBodyAPI"@),
        Role::ArticulationRoot => carries(prim, "PhysicsArticulationRootAPI"@),
        Role::Material => carries(prim, "PhysicsMaterialAPI"@),
        Role::Collider => carries(prim, "PhysicsCollisionAPI"@),
        Role::FilteredPairs => carries(prim, "PhysicsFilteredPairsAPI"@),
    }
}

/// The paths of the first `count` prims that have the role, in stage order.
pub open spec fn players(prims: Seq<Prim>, role: Role, count: nat) -> Seq<Seq<char>>
    decreases count,
{
    if count == 0 {
        Seq::empty()
    } else {
        let sofar = players(prims, role, (count - 1) as nat);
        if plays(prims[count - 1], role) {
            sofar.push(prims[count - 1].path@)
        } else {
            sofar
        }
    }
}

fn prim_carries(prim: &Prim, api: &str) -> (r: bool)
    ensures
        r == carries(*prim, api@),
{
    match &prim.api_schemas {
        Ok(list) => holds(list, api),
        Err(_) => false,
    }
}

fn add_path(bucket: &mut Vec<String>, path: &str, wanted: bool)
    ensures
        views(final(bucket)@) == (if wanted {
            views(old(bucket)@).push(path@)
        } else {
            views(old(bucket)@)
        }),
{
    let ghost before = views(bucket@);
    if wanted {
        bucket.push(copy(path));
        assert(views(bucket@) =~= before.push(path@));
    }
}

/// Walk the stage and bucket every physics prim by role.
pub fn find_physics_prims(stage: &Stage) -> (r: PhysicsPrims)
    ensures
        views(r.joints@) == players(stage.prims@, Role::Joint, stage.prims@.len()),
        views(r.rigid_bodies@) == players(stage.prims@, Role::RigidBody, stage.prims@.len()),
        views(r.scenes@) == players(stage.prims@, Role::Scene, stage.prims@.len()),
        views(r.articulation_roots@) == players(
            stage.prims@,
            Role::ArticulationRoot,
            stage.prims@.len(),
        ),
        views(r.materials@) == players(stage.prims@, Role::Material, stage.prims@.len()),
        views(r.collision_groups@) == players(
            stage.prims@,
            Role::CollisionGroup,
            stage.prims@.len(),
        ),
        views(r.filtered_pairs@) == players(stage.prims@, Role::FilteredPairs, stage.prims@.len()),
        views(r.colliders@) == players(stage.prims@, Role::Collider, stage.prims@.len()),
{
    let mut joints: Vec<String> = Vec::new();
    let mut rigid_bodies: Vec<String> = Vec::new();
    let mut scenes: Vec<String> = Vec::new();
    let mut articulation_roots: Vec<String> = Vec::new();
    let mut materials: Vec<String> = Vec::new();
    let mut collision_groups: Vec<String> = Vec::new();
    let mut filtered_pairs: Vec<String> = Vec::new();
    let mut colliders: Vec<String> = Vec::new();
    assert(views(joints@) =~= Seq::<Seq<char>>::empty());
    assert(views(rigid_bodies@) =~= Seq::<Seq<char>>::empty());
    assert(views(scenes@) =~= Seq::<Seq<char>>::empty());
    assert(views(articulation_roots@) =~= Seq::<Seq<char>>::empty());
    assert(views(materials@) =~= Seq::<Seq<char>>::empty());
    assert(views(collision_groups@) =~= Seq::<Seq<char>>::empty());
    assert(views(filtered_pairs@) =~= Seq::<Seq<char>>::empty());
    assert(views(colliders@) =~= Seq::<Seq<char>>::empty());
    for i in 0..stage.prims.len()
        invariant
            views(joints@) == players(stage.prims@, Role::Joint, i as nat),
            views(rigid_bodies@) == players(stage.prims@, Role::RigidBody, i as nat),
            views(scenes@) == players(stage.prims@, Role::Scene, i as nat),
            views(articulation_roots@) == players(stage.prims@, Role::ArticulationRoot, i as nat),
            views(materials@) == players(stage.prims@, Role::Material, i as nat),
            views(collision_groups@) == players(stage.prims@, Role::CollisionGroup, i as nat),
            views(filtered_pairs@) == players(stage.prims@, Role::FilteredPairs, i as nat),
            views(colliders@) == players(stage.prims@, Role::Collider, i as nat),
    {
        let prim = &stage.prims[i];
        let path = prim.path.as_str();
        let kind = match &prim.prim_type {
            Ok(Some(t)) => copy(t.as_str()),
            _ => String::new(),
        };
        assert(kind@ =~= type_text(*prim));
        let scene = str_eq(kind.as_str(), "PhysicsScene");
        let group = str_eq(kind.as_str(), "PhysicsCollisionGroup");
        let joint = !scene && !group && starts_with(kind.as_str(), "Physics") && ends_with(
            kind.as_str(),
            "Joint",
        );
        add_path(&mut scenes, path, scene);
        add_path(&mut collision_groups, path, group);
        add_path(&mut joints, path, joint);
        add_path(&mut rigid_bodies, path, prim_carries(prim, "PhysicsRigidBodyAPI"));
        add_path(
            &mut articulation_roots,
            path,
            prim_carries(prim, "PhysicsArticulationRootAPI"),
        );
        add_path(&mut materials, path, prim_carries(prim, "PhysicsMaterialAPI"));
        add_path(&mut colliders, path, prim_carries(prim, "PhysicsCollisionAPI"));
        add_path(&mut filtered_pairs, path, prim_carries(prim, "PhysicsFilteredPairsAPI"));
    }
    PhysicsPrims {
        joints,
        rigid_bodies,
        scenes,
        articulation_roots,
        materials,
        collision_groups,
        filtered_pairs,
        colliders,
    }
}

/// Every prim that a joint record is read for is found as a joint.
pub proof fn readable_joints_are_found(prim: Prim)
    requires
        joint_kind_of(type_text(prim)) is Some,
    ensures
        plays(prim, Role::Joint),
{
    reveal_strlit("Physics");
    reveal_strlit("Joint");
    reveal_strlit("PhysicsScene");
    reveal_strlit("PhysicsCollisionGroup");
    reveal_strlit("PhysicsRevoluteJoint");
    reveal_strlit("PhysicsPrismaticJoint");
    reveal_strlit("PhysicsSphericalJoint");
    reveal_strlit("PhysicsDistanceJoint");
    reveal_strlit("PhysicsFixedJoint");
    reveal_strlit("PhysicsJoint");
    let t = type_text(prim);
    assert("Physics"@ =~= t.subrange(0, 7));
    assert("Joint"@ =~= t.subrange(t.len() - 5, t.len() as int));
    assert(t.last() == 't');
    assert("PhysicsScene"@.last() == 'e');
    assert("PhysicsCollisionGroup"@.last() == 'p');
}

} // verus!
