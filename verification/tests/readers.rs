use usd_bevy::physics_data::{
    approx_from_token, find_physics_prims, read_collision_group, read_collision_shape,
    read_filtered_pairs, read_joint, read_mass, read_physics_material, read_physics_scene,
    CollisionApprox, Dof, DriveType, JointKind,
};
use usd_bevy::read::anim::{
    eval_scalar_track, eval_vec3_track, held_placement, linear_placement, read_animated_prim, read_interp_mode,
    sample_scalar_held, sample_vec3_held, InterpMode, Placement, ScalarSample, ScalarTrack,
    Vec3Sample, Vec3Track,
};
use usd_bevy::read::camera::{is_camera_type, read_camera, Projection};
use usd_bevy::read::clips::read_clips;
use usd_bevy::read::geom::{fan_triangles, point_values, read_mesh};
use usd_bevy::read::lux::{is_light_type, read_light, ReadLight};
use usd_bevy::read::media::read_spatial_audio;
use usd_bevy::read::proc::read_procedural;
use usd_bevy::read::render::{read_render_product, read_render_settings, read_render_var};
use usd_bevy::read::shade::{read_material_binding, read_preview_material};
use usd_bevy::read::skel::{
    leaf, read_blend_shape, read_skel_animation_stage, read_skel_binding, read_skel_root,
    read_skeleton,
};
use usd_bevy::read::skel_anim_text::{insert_frame, Frame};
use usd_bevy::read::ui::{read_display_group, read_display_name};
use usd_bevy::read::util::{
    has_type, read_asset_path, read_bool, read_double, read_double_vec, read_f32, read_float_vec,
    read_int, read_int_vec, read_quatf_vec, read_rel_first_target, read_rel_targets,
    read_token_or_string, read_token_vec, read_vec2d_vec, read_vec2f, read_vec2f_vec, read_vec3f,
    read_vec3f_vec,
};
use usd_bevy::route::signature::{Interpolation, Orientation};
use usd_bevy::stage::{
    Attribute, Authored, Pair, Prim, Quad, Relationship, Sample, Scalar, Stage, Triple, Value,
};

fn prim(path: &str, kind: &str) -> Prim {
    Prim::new(path, Some(kind.into()))
}

fn with(mut prim: Prim, name: &str, value: Value) -> Prim {
    let mut attribute = Attribute::new(name);
    attribute.at_default = Ok(Some(Authored { shown: format!("{value:?}"), value }));
    prim.attributes.push(attribute);
    prim
}

fn sampled(mut prim: Prim, name: &str, samples: Vec<(f64, Value)>) -> Prim {
    let mut attribute = Attribute::new(name);
    attribute.samples = Ok(samples
        .into_iter()
        .map(|(time, value)| Sample { time: time.to_bits(), value })
        .collect());
    prim.attributes.push(attribute);
    prim
}

fn related(mut prim: Prim, name: &str, targets: &[&str]) -> Prim {
    prim.relationships.push(Relationship {
        name: name.into(),
        targets: Ok(targets.iter().map(|t| t.to_string()).collect()),
    });
    prim
}

fn applying(mut prim: Prim, schemas: &[&str]) -> Prim {
    prim.api_schemas = Ok(schemas.iter().map(|s| s.to_string()).collect());
    prim
}

fn stage(prims: Vec<Prim>) -> Stage {
    Stage { prims, absent_files: vec![] }
}

fn f(x: f32) -> Scalar {
    Scalar::F32(x.to_bits())
}

fn float(x: f32) -> Value {
    Value::Float(x.to_bits())
}

fn triple(x: f32, y: f32, z: f32) -> Triple {
    Triple { x: f(x), y: f(y), z: f(z) }
}

#[test]
fn attributes_are_read_by_type() {
    let mut broken = Attribute::new("broken");
    broken.at_default = Err("unreadable".into());
    let mut p = with(with(prim("/P", "Xform"), "n", Value::Int(4)), "b", Value::Bool(true));
    p = with(with(p, "t", Value::Token("tok".into())), "d", Value::Double(2.5f64.to_bits()));
    p.attributes.push(broken);
    let s = stage(vec![p]);
    assert_eq!(read_int(&s, "/P", "n"), Ok(Some(4)));
    assert_eq!(read_bool(&s, "/P", "b"), Ok(Some(true)));
    assert_eq!(read_bool(&s, "/P", "n"), Ok(None));
    assert_eq!(read_token_or_string(&s, "/P", "t"), Ok(Some("tok".into())));
    assert_eq!(read_f32(&s, "/P", "d"), Ok(Some(Scalar::F64(2.5f64.to_bits()))));
    assert_eq!(read_f32(&s, "/P", "absent"), Ok(None));
    assert_eq!(read_f32(&s, "/P", "broken"), Err("unreadable".into()));
}

#[test]
fn vectors_and_lists_are_read() {
    let d = |x: f64| Scalar::F64(x.to_bits());
    let quad = Quad { w: f(1.0), x: f(0.0), y: f(0.5), z: f(0.0) };
    let pair = Pair { x: f(0.25), y: f(0.75) };
    let p = with(prim("/P", "Mesh"), "v3", Value::Vec3d(1.0f64.to_bits(), 0, 0));
    let p = with(p, "v2", Value::Vec2f(0.25f32.to_bits(), 0.75f32.to_bits()));
    let p = with(p, "double", Value::Double(2.5f64.to_bits()));
    let p = with(p, "file", Value::Asset { authored: "a.png".into(), resolved: None });
    let p = with(p, "tokens", Value::TokenVec(vec!["a".into(), "b".into()]));
    let p = with(p, "ints", Value::IntVec(vec![3, -1]));
    let p = with(p, "floats", Value::FloatVec(vec![0.5f32.to_bits()]));
    let p = with(p, "doubles", Value::DoubleVec(vec![0.5f64.to_bits()]));
    let p = with(p, "points", Value::Vec3fVec(vec![triple(1.0, 2.0, 3.0)]));
    let p = with(p, "uvs", Value::Vec2fVec(vec![pair]));
    let p = with(p, "times", Value::Vec2dVec(vec![Pair { x: d(1.0), y: d(2.0) }]));
    let p = with(p, "turns", Value::QuatfVec(vec![quad]));
    let s = stage(vec![related(p, "rel", &["/A", "/B"])]);
    assert_eq!(read_vec3f(&s, "/P", "v3"), Ok(Some(Triple { x: d(1.0), y: d(0.0), z: d(0.0) })));
    assert_eq!(read_vec2f(&s, "/P", "v2"), Ok(Some(pair)));
    assert_eq!(read_double(&s, "/P", "double"), Ok(Some(d(2.5))));
    assert_eq!(read_asset_path(&s, "/P", "file"), Ok(Some("a.png".into())));
    assert_eq!(read_token_vec(&s, "/P", "tokens"), Ok(vec!["a".into(), "b".into()]));
    assert_eq!(read_token_vec(&s, "/P", "absent"), Ok(vec![]));
    assert_eq!(read_int_vec(&s, "/P", "ints"), Ok(vec![3, -1]));
    assert_eq!(read_float_vec(&s, "/P", "floats"), Ok(vec![f(0.5)]));
    assert_eq!(read_double_vec(&s, "/P", "doubles"), Ok(vec![d(0.5)]));
    assert_eq!(read_vec3f_vec(&s, "/P", "points"), Ok(vec![triple(1.0, 2.0, 3.0)]));
    assert_eq!(read_vec2f_vec(&s, "/P", "uvs"), Ok(vec![pair]));
    assert_eq!(read_vec2d_vec(&s, "/P", "times"), Ok(vec![Pair { x: d(1.0), y: d(2.0) }]));
    assert_eq!(read_quatf_vec(&s, "/P", "turns"), Ok(vec![quad]));
    assert_eq!(read_rel_targets(&s, "/P", "rel"), Ok(vec!["/A".into(), "/B".into()]));
    assert_eq!(read_rel_first_target(&s, "/P", "rel"), Ok(Some("/A".into())));
    assert_eq!(read_rel_first_target(&s, "/P", "none"), Ok(None));
    assert_eq!(has_type(&s, "/P", "Mesh"), Ok(true));
    assert_eq!(has_type(&s, "/P", "Xform"), Ok(false));
}

#[test]
fn cameras_are_read() {
    assert!(is_camera_type("Camera") && !is_camera_type("Xform"));
    let c = with(
        with(prim("/C", "Camera"), "focalLength", float(35.0)),
        "projection",
        Value::Token("orthographic".into()),
    );
    let c = with(c, "clippingRange", Value::Vec2f(0.5f32.to_bits(), 90.0f32.to_bits()));
    let s = stage(vec![c, prim("/X", "Xform")]);
    let read = read_camera(&s, "/C").unwrap().unwrap();
    assert_eq!(read.focal_length_mm, Some(f(35.0)));
    assert_eq!(read.projection, Some(Projection::Orthographic));
    assert_eq!((read.clip_near, read.clip_far), (Some(f(0.5)), Some(f(90.0))));
    assert_eq!(read.f_stop, None);
    assert!(read_camera(&s, "/X").unwrap().is_none());
}

#[test]
fn lights_are_read_by_type() {
    let sphere = with(
        with(prim("/L", "SphereLight"), "inputs:intensity", float(30.0)),
        "inputs:radius",
        float(0.5),
    );
    let sphere = with(sphere, "inputs:color", Value::Vec3f(1, 2, 3));
    let dome = with(
        prim("/D", "DomeLight"),
        "inputs:texture:file",
        Value::Asset { authored: "sky.exr".into(), resolved: None },
    );
    let s = stage(vec![related(sphere, "light:filters", &["/F"]), dome, prim("/X", "Xform")]);
    match read_light(&s, "/L").unwrap() {
        Some(ReadLight::Sphere(l)) => {
            assert_eq!(l.common.intensity, Some(f(30.0)));
            assert_eq!(l.radius, Some(f(0.5)));
            assert_eq!(l.common.light_filters, ["/F"]);
            assert_eq!(l.common.exposure, None);
        }
        other => panic!("a sphere light, got {other:?}"),
    }
    match read_light(&s, "/D").unwrap() {
        Some(ReadLight::Dome(l)) => assert_eq!(l.texture_file.as_deref(), Some("sky.exr")),
        other => panic!("a dome light, got {other:?}"),
    }
    assert!(read_light(&s, "/X").unwrap().is_none());
    assert!(is_light_type("RectLight") && !is_light_type("Light"));
}

#[test]
fn skeletons_know_their_hierarchy() {
    let skeleton = with(
        prim("/S", "Skeleton"),
        "joints",
        Value::TokenVec(vec!["Hip".into(), "Hip/Knee".into(), "Hip/Knee/Foot".into(), "A/B".into()]),
    );
    let s = stage(vec![skeleton, prim("/E", "Skeleton")]);
    let read = read_skeleton(&s, "/S").unwrap().unwrap();
    assert_eq!(read.joint_parent_indices(), [None, Some(0), Some(1), None]);
    assert_eq!(read.joint_short_names(), ["Hip", "Knee", "Foot", "B"]);
    assert!(read_skeleton(&s, "/E").unwrap().is_none());
    assert_eq!(leaf("/World/A"), "A");
    assert_eq!(leaf("A"), "A");
}

#[test]
fn bindings_need_indices_and_weights() {
    let half = with(prim("/M", "Mesh"), "primvars:skel:jointIndices", Value::IntVec(vec![0, 1]));
    let mut full = with(
        with(prim("/N", "Mesh"), "primvars:skel:jointIndices", Value::IntVec(vec![0, 1])),
        "primvars:skel:jointWeights",
        Value::FloatVec(vec![1.0f32.to_bits(), 0]),
    );
    full.attributes[0].element_size = Ok(Some(2));
    let s = stage(vec![half, related(full, "skel:skeleton", &["/S"])]);
    assert!(read_skel_binding(&s, "/M").unwrap().is_none());
    let read = read_skel_binding(&s, "/N").unwrap().unwrap();
    assert_eq!(read.joint_indices, [0, 1]);
    assert_eq!(read.joint_weights, [f(1.0), f(0.0)]);
    assert_eq!(read.elements_per_vertex, 2);
    assert_eq!(read.skeleton.as_deref(), Some("/S"));
}

#[test]
fn skeletal_animation_is_sorted_by_time() {
    let p = with(prim("/A/Walk", "SkelAnimation"), "joints", Value::TokenVec(vec!["Hip".into()]));
    let p = sampled(
        p,
        "translations",
        vec![
            (2.0, Value::Vec3fVec(vec![triple(2.0, 0.0, 0.0)])),
            (1.0, Value::Vec3fVec(vec![triple(1.0, 0.0, 0.0)])),
        ],
    );
    let p = sampled(
        p,
        "rotations",
        vec![(0.0, Value::QuatfVec(vec![Quad { w: f(1.0), x: f(0.0), y: f(0.0), z: f(0.0) }]))],
    );
    let s = stage(vec![p]);
    let read = read_skel_animation_stage(&s, "/A/Walk").unwrap().unwrap();
    assert_eq!(read.prim_name, "Walk");
    let times: Vec<f64> = read.translations.iter().map(|t| f64::from_bits(t.time)).collect();
    assert_eq!(times, [1.0, 2.0]);
    assert_eq!(read.translations[1].items, [triple(2.0, 0.0, 0.0)]);
    assert_eq!(read.rotations.len(), 1);
    assert!(read.scales.is_empty());

    let mut track: Vec<Frame<u32>> = Vec::new();
    for time in [3.0f64, 1.0, 2.0, 1.0] {
        let value = track.len() as u32;
        insert_frame(&mut track, time.to_bits(), vec![value]);
    }
    let times: Vec<f64> = track.iter().map(|t| f64::from_bits(t.time)).collect();
    assert_eq!(times, [1.0, 2.0, 3.0]);
    assert_eq!(track[0].items, [3]);
}

#[test]
fn skeleton_roots_and_shapes_are_read() {
    let root = related(
        related(prim("/R", "SkelRoot"), "skel:skeleton", &["/S"]),
        "skel:animationSource",
        &["/W", "/Other"],
    );
    let shape = with(
        prim("/B", "BlendShape"),
        "offsets",
        Value::Vec3fVec(vec![triple(0.0, 1.0, 0.0)]),
    );
    let s = stage(vec![root, shape, prim("/Empty", "BlendShape")]);
    let read = read_skel_root(&s, "/R").unwrap().unwrap();
    assert_eq!(read.skeleton.as_deref(), Some("/S"));
    assert_eq!(read.animation_source.as_deref(), Some("/W"));
    let read = read_blend_shape(&s, "/B").unwrap().unwrap();
    assert_eq!(read.offsets, [triple(0.0, 1.0, 0.0)]);
    assert!(read.point_indices.is_empty());
    assert!(read_blend_shape(&s, "/Empty").unwrap().is_none());
}

#[test]
fn samples_are_found_by_time() {
    let times: Vec<u64> = [1.0f64, 2.0, 4.0].iter().map(|t| t.to_bits()).collect();
    let at = |t: f64| linear_placement(&times, t.to_bits());
    assert_eq!(at(0.5), Some(Placement::At(0)));
    assert_eq!(at(3.0), Some(Placement::Between(1, 2)));
    assert_eq!(at(9.0), Some(Placement::At(2)));
    assert_eq!(linear_placement(&vec![], 0), None);
    let held = |t: f64| held_placement(&times, t.to_bits());
    assert_eq!((held(0.5), held(2.0), held(3.9), held(7.0)), (Some(0), Some(1), Some(1), Some(2)));

    let samples: Vec<ScalarSample> = times
        .iter()
        .map(|t| ScalarSample { time: *t, value: Scalar::F64(*t) })
        .collect();
    assert_eq!(sample_scalar_held(&samples, 2.5f64.to_bits()), Some(Scalar::F64(times[1])));
    let track = ScalarTrack { samples, mode: InterpMode::Held };
    assert_eq!(eval_scalar_track(&track, 2.5f64.to_bits()), Some(Placement::At(1)));
    let vectors = vec![Vec3Sample { time: times[0], value: triple(1.0, 2.0, 3.0) }];
    assert_eq!(sample_vec3_held(&vectors, 0), Some(triple(1.0, 2.0, 3.0)));
    let track = Vec3Track { samples: vectors, mode: InterpMode::Linear };
    assert_eq!(eval_vec3_track(&track, 5.0f64.to_bits()), Some(Placement::At(0)));
}

#[test]
fn animated_transforms_are_read() {
    let mut p = sampled(
        prim("/P", "Xform"),
        "xformOp:translate",
        vec![
            (0.0, Value::Vec3d(0, 0, 0)),
            (1.0, Value::Vec3d(1.0f64.to_bits(), 0, 0)),
        ],
    );
    p.attributes[0].interpolation = Ok(Some("held".into()));
    let s = stage(vec![p, prim("/Still", "Xform")]);
    let read = read_animated_prim(&s, "/P").unwrap().unwrap();
    let track = read.translate.as_ref().unwrap();
    assert_eq!(track.samples.len(), 2);
    assert_eq!(track.mode, InterpMode::Held);
    assert!(read.scale.is_none() && !read.is_empty());
    assert!(read_animated_prim(&s, "/Still").unwrap().is_none());
    assert_eq!(read_interp_mode(&s, "/Still", "x"), Ok(InterpMode::Linear));
    assert_eq!(InterpMode::default(), InterpMode::Linear);
    assert_eq!(InterpMode::parse("cubic"), None);
}

#[test]
fn render_media_and_ui_prims_are_read() {
    let settings = related(
        with(prim("/R", "RenderSettings"), "resolution", Value::Vec2i(1920, 1080)),
        "products",
        &["/R/P"],
    );
    let product = related(prim("/R/P", "RenderProduct"), "camera", &["/Cam"]);
    let var = with(prim("/R/V", "RenderVar"), "sourceName", Value::Text("Ci".into()));
    let audio = with(
        prim("/A", "SpatialAudio"),
        "filePath",
        Value::Asset { authored: "a.wav".into(), resolved: None },
    );
    let proc = with(prim("/G", "GenerativeProcedural"), "proceduralSystem", Value::Token("x".into()));
    let named = with(prim("/N", "Xform"), "ui:displayName", Value::Token("Shown".into()));
    let s = stage(vec![settings, product, var, audio, proc, named]);
    let read = read_render_settings(&s, "/R").unwrap().unwrap();
    assert_eq!(read.resolution, Some((1920, 1080)));
    assert_eq!(read.products, ["/R/P"]);
    let read = read_render_product(&s, "/R/P").unwrap().unwrap();
    assert_eq!(read.camera.as_deref(), Some("/Cam"));
    let read = read_render_var(&s, "/R/V").unwrap().unwrap();
    assert_eq!(read.source_name.as_deref(), Some("Ci"));
    assert!(read_render_var(&s, "/R").unwrap().is_none());
    let read = read_spatial_audio(&s, "/A").unwrap().unwrap();
    assert_eq!(read.file_path.as_deref(), Some("a.wav"));
    let read = read_procedural(&s, "/G").unwrap().unwrap();
    assert_eq!(read.procedural_system.as_deref(), Some("x"));
    assert_eq!(read_display_name(&s, "/N"), Ok(Some("Shown".into())));
    assert_eq!(read_display_group(&s, "/N"), Ok(None));
    assert!(read_clips(&s, "/N").unwrap().is_empty());
}

#[test]
fn joints_are_read_with_limits_and_drives() {
    let j = related(prim("/J", "PhysicsRevoluteJoint"), "physics:body0", &["/A"]);
    let j = with(with(j, "physics:axis", Value::Token("Z".into())), "physics:lowerLimit", float(-10.0));
    let j = with(j, "limit:transX:physics:low", float(-1.0));
    let j = with(j, "drive:angular:physics:stiffness", float(5.0));
    let j = with(j, "drive:angular:physics:type", Value::Token("acceleration".into()));
    let j = applying(j, &["PhysicsLimitAPI:transX", "PhysicsLimitAPI:odd", "PhysicsDriveAPI:angular"]);
    let s = stage(vec![j, prim("/X", "Xform"), prim("/F", "PhysicsFixedJoint")]);
    let read = read_joint(&s, "/J").unwrap().unwrap();
    assert_eq!(read.kind, JointKind::Revolute);
    assert_eq!(read.body0.as_deref(), Some("/A"));
    assert_eq!(read.body1, None);
    assert_eq!(read.axis.as_deref(), Some("Z"));
    assert_eq!(read.lower_limit, Some(f(-10.0)));
    assert_eq!(read.local_pos0, triple(0.0, 0.0, 0.0));
    assert_eq!(read.local_rot1, Quad { w: f(1.0), x: f(0.0), y: f(0.0), z: f(0.0) });
    assert!(read.joint_enabled && !read.collision_enabled);
    assert_eq!(read.limits.len(), 1);
    assert_eq!(read.limits[0].dof, Dof::TransX);
    assert_eq!(read.limits[0].low, f(-1.0));
    assert_eq!(read.limits[0].high, f(f32::INFINITY));
    assert_eq!(read.drives[0].drive_type, DriveType::Acceleration);
    assert_eq!(read.drives[0].stiffness, f(5.0));
    assert_eq!(read.drives[0].damping, f(0.0));
    assert!(read_joint(&s, "/X").unwrap().is_none());
    let fixed = read_joint(&s, "/F").unwrap().unwrap();
    assert_eq!((fixed.kind, fixed.axis), (JointKind::Fixed, None));
}

#[test]
fn physics_prims_are_bucketed() {
    let body = applying(prim("/B", "Cube"), &["PhysicsRigidBodyAPI", "PhysicsCollisionAPI"]);
    let s = stage(vec![
        prim("/Scene", "PhysicsScene"),
        body,
        prim("/J", "PhysicsFixedJoint"),
        prim("/Odd", "PhysicsCustomJoint"),
        prim("/G", "PhysicsCollisionGroup"),
    ]);
    let found = find_physics_prims(&s);
    assert_eq!(found.scenes, ["/Scene"]);
    assert_eq!(found.rigid_bodies, ["/B"]);
    assert_eq!(found.colliders, ["/B"]);
    assert_eq!(found.joints, ["/J", "/Odd"]);
    assert_eq!(found.collision_groups, ["/G"]);
    assert!(found.materials.is_empty() && found.filtered_pairs.is_empty());
}

#[test]
fn physics_schemas_are_read() {
    let scene = with(prim("/S", "PhysicsScene"), "physics:gravityMagnitude", float(9.81));
    let body = with(prim("/B", "Cube"), "physics:mass", float(2.0));
    let body = applying(
        with(body, "physics:approximation", Value::Token("convexHull".into())),
        &["PhysicsMassAPI", "PhysicsCollisionAPI", "PhysicsMeshCollisionAPI"],
    );
    let body = related(body, "material:binding", &["/M"]);
    let material = applying(
        with(prim("/M", "Material"), "physics:restitution", float(0.5)),
        &["PhysicsMaterialAPI"],
    );
    let group = related(prim("/G", "PhysicsCollisionGroup"), "physics:filteredGroups", &["/H"]);
    let pairs = applying(
        related(prim("/P", "Xform"), "physics:filteredPairs", &["/A", "/B"]),
        &["PhysicsFilteredPairsAPI"],
    );
    let s = stage(vec![scene, body, material, group, pairs]);
    assert_eq!(read_physics_scene(&s, "/S").unwrap().unwrap().gravity_magnitude, Some(f(9.81)));
    assert!(read_physics_scene(&s, "/B").unwrap().is_none());
    assert_eq!(read_mass(&s, "/B").unwrap().unwrap().mass, Some(f(2.0)));
    let shape = read_collision_shape(&s, "/B").unwrap().unwrap();
    assert_eq!(shape.approximation, Some(CollisionApprox::ConvexHull));
    assert_eq!(shape.physics_material_path.as_deref(), Some("/M"));
    assert!(shape.collision_enabled);
    let read = read_physics_material(&s, "/M").unwrap().unwrap();
    assert_eq!((read.restitution, read.density), (Some(f(0.5)), None));
    let read = read_collision_group(&s, "/G").unwrap().unwrap();
    assert_eq!(read.filtered_groups, ["/H"]);
    assert!(!read.invert_filtered_groups);
    assert_eq!(read_filtered_pairs(&s, "/P").unwrap().unwrap().filtered, ["/A", "/B"]);
    assert_eq!(approx_from_token("none"), Some(CollisionApprox::Unspecified));
    assert_eq!(approx_from_token("odd"), None);
}

#[test]
fn faces_become_fans() {
    let counts = vec![4, 3];
    let indices = vec![0, 1, 2, 3, 3, 2, 4];
    let right = fan_triangles(&counts, &indices, 5, Orientation::RightHanded);
    assert_eq!(right, vec![0, 1, 2, 0, 2, 3, 3, 2, 4]);
    let left = fan_triangles(&counts, &indices, 5, Orientation::LeftHanded);
    assert_eq!(left, vec![0, 2, 1, 0, 3, 2, 3, 4, 2]);
}

#[test]
fn broken_faces_have_no_triangles() {
    let right = Orientation::RightHanded;
    assert_eq!(fan_triangles(&vec![3], &vec![0, 1, 9], 3, right), Vec::<u32>::new());
    assert_eq!(fan_triangles(&vec![3], &vec![0, 1, -1], 3, right), Vec::<u32>::new());
    assert_eq!(fan_triangles(&vec![4, 3], &vec![0, 1, 2], 3, right), Vec::<u32>::new());
    assert_eq!(fan_triangles(&vec![2, -1, 3], &vec![0, 1, 0, 1, 2], 3, right), vec![0, 1, 2]);
}

#[test]
fn meshes_are_read() {
    let points = vec![triple(0.0, 0.0, 0.0), triple(1.0, 0.0, 0.0), triple(0.0, 1.0, 0.0)];
    let p = with(prim("/M", "Mesh"), "points", Value::Vec3fVec(points.clone()));
    let p = with(p, "faceVertexCounts", Value::IntVec(vec![3]));
    let p = with(p, "faceVertexIndices", Value::IntVec(vec![0, 1, 2]));
    let p = with(p, "orientation", Value::Token("leftHanded".into()));
    let uvs = Value::Vec2fVec(vec![Pair { x: f(0.25), y: f(0.75) }]);
    let mut p = with(p, "primvars:st", uvs);
    p.attributes.last_mut().unwrap().interpolation = Ok(Some("faceVarying".into()));
    let p = with(p, "primvars:st:indices", Value::IntVec(vec![0, 0, 0]));
    let p = with(p, "primvars:displayOpacity", Value::FloatVec(vec![0.5f32.to_bits()]));
    let s = stage(vec![p, prim("/X", "Xform")]);
    let mesh = read_mesh(&s, "/M").unwrap();
    assert_eq!(mesh.points, points);
    assert_eq!(mesh.face_vertex_counts, vec![3]);
    assert_eq!(mesh.face_vertex_indices, vec![0, 1, 2]);
    assert_eq!(mesh.orientation, Orientation::LeftHanded);
    assert!(mesh.normals.is_none() && mesh.display_color.is_none());
    let uvs = mesh.uvs.unwrap();
    assert_eq!(uvs.numbers, vec![f(0.25), f(0.75)]);
    assert_eq!(uvs.interpolation, Interpolation::FaceVarying);
    assert_eq!(uvs.indices, vec![0, 0, 0]);
    let opacity = mesh.display_opacity.unwrap();
    assert_eq!(opacity.numbers, vec![f(0.5)]);
    assert_eq!(opacity.interpolation, Interpolation::Constant);
    assert!(opacity.indices.is_empty());
    assert!(read_mesh(&s, "/X").is_none());
}

#[test]
fn bound_preview_surfaces_are_read() {
    let connected = |mut p: Prim, name: &str, source: &str| {
        let mut attribute = Attribute::new(name);
        attribute.connections = Ok(vec![source.to_string()]);
        p.attributes.push(attribute);
        p
    };
    let bound = related(prim("/Geo", "Mesh"), "material:binding", &["/Mat"]);
    let material = connected(prim("/Mat", "Material"), "outputs:surface", "/Mat/S.outputs:surface");
    let shader = with(prim("/Mat/S", "Shader"), "inputs:roughness", float(0.25));
    let shader = connected(shader, "inputs:diffuseColor", "/Mat/T.outputs:rgb");
    let shader = connected(shader, "inputs:normal", "/Mat/N.outputs:rgb");
    let found = Value::Asset { authored: "a.png".into(), resolved: Some("/x/a.png".into()) };
    let texture = with(prim("/Mat/T", "Shader"), "inputs:file", found);
    let lost = Value::Asset { authored: "n.png".into(), resolved: None };
    let normal = with(prim("/Mat/N", "Shader"), "inputs:file", lost);
    let s = stage(vec![bound, material, shader, texture, normal]);
    assert_eq!(read_material_binding(&s, "/Geo"), Some("/Mat".into()));
    assert_eq!(read_material_binding(&s, "/Mat"), None);
    let read = read_preview_material(&s, "/Mat").unwrap();
    assert_eq!(read.roughness, Some(f(0.25)));
    assert_eq!(read.metallic, None);
    assert_eq!(read.diffuse_texture, Some("/x/a.png".into()));
    assert_eq!(read.normal_texture, Some("n.png".into()));
    assert_eq!(read.occlusion_texture, None);
    assert!(read_preview_material(&s, "/Geo").is_none());
}

#[test]
fn linear_placement_takes_any_times() {
    let times: Vec<u64> = [0.0f64, 1.0, 1.0, 1.0, 2.0].iter().map(|t| t.to_bits()).collect();
    let at = |t: f64| linear_placement(&times, t.to_bits());
    assert_eq!(at(1.0), Some(Placement::At(3)));
    assert_eq!(at(0.5), Some(Placement::Between(0, 1)));
    assert_eq!(at(1.5), Some(Placement::Between(3, 4)));
    assert_eq!(at(f64::NAN), Some(Placement::At(4)));
    let doubled: Vec<u64> = [1.0f64, 1.0, 3.0, 3.0].iter().map(|t| t.to_bits()).collect();
    assert_eq!(linear_placement(&doubled, 1.0f64.to_bits()), Some(Placement::At(0)));
    assert_eq!(linear_placement(&doubled, 3.0f64.to_bits()), Some(Placement::At(3)));
    let one = Vec3Track {
        samples: vec![Vec3Sample { time: 0, value: triple(1.0, 2.0, 3.0) }],
        mode: InterpMode::Held,
    };
    assert_eq!(eval_vec3_track(&one, f64::NAN.to_bits()), Some(Placement::At(0)));
}

#[test]
fn texture_coordinates_can_be_transformed() {
    let connected = |mut p: Prim, name: &str, source: &str| {
        let mut attribute = Attribute::new(name);
        attribute.connections = Ok(vec![source.to_string()]);
        p.attributes.push(attribute);
        p
    };
    let material = connected(prim("/M", "Material"), "outputs:surface", "/M/S.outputs:surface");
    let shader = connected(prim("/M/S", "Shader"), "inputs:roughness", "/M/T.outputs:r");
    let image = connected(prim("/M/T", "Shader"), "inputs:st", "/M/X.outputs:result");
    let id = Value::Token("UsdTransform2d".into());
    let node = with(prim("/M/X", "Shader"), "info:id", id);
    let node = with(node, "inputs:rotation", float(90.0));
    let node = with(node, "inputs:scale", Value::Vec2f(2.0f32.to_bits(), 3.0f32.to_bits()));
    let mut s = stage(vec![material, shader, image, node]);
    let uv = read_preview_material(&s, "/M").unwrap().uv_transform.unwrap();
    assert_eq!(uv.rotation, f(90.0));
    assert_eq!(uv.scale, Pair { x: f(2.0), y: f(3.0) });
    assert_eq!(uv.translation, Pair { x: f(0.0), y: f(0.0) });
    s.prims.pop();
    assert_eq!(read_preview_material(&s, "/M").unwrap().uv_transform, None);
}

#[test]
fn points_take_values_by_interpolation() {
    let counts = vec![3, 3];
    let indices = vec![0, 1, 2, 2, 1, 3];
    let take = |interpolation, value_indices: Vec<i32>, values| {
        point_values(interpolation, &value_indices, values, &counts, &indices, 5)
    };
    let some = |list: [usize; 4]| {
        let mut out: Vec<Option<usize>> = list.into_iter().map(Some).collect();
        out.push(None);
        out
    };
    assert_eq!(take(Interpolation::Constant, vec![], 1), vec![Some(0); 5]);
    assert_eq!(take(Interpolation::Vertex, vec![], 4), some([0, 1, 2, 3]));
    assert_eq!(take(Interpolation::FaceVarying, vec![], 6), some([0, 1, 2, 5]));
    assert_eq!(take(Interpolation::Uniform, vec![], 2), some([0, 0, 0, 1]));
    assert_eq!(take(Interpolation::Varying, vec![3, 2, 1, 0], 4), some([3, 2, 1, 0]));
    assert_eq!(take(Interpolation::Vertex, vec![0, -1, 9], 4)[..3], [Some(0), None, None]);
    assert_eq!(take(Interpolation::Constant, vec![], 0), vec![None; 5]);
}
