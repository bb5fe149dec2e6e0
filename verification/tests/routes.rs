use usd_bevy::material::{
    default_material, material_label, pack_metallic_roughness, standard_material_from_usd,
    AlphaMode, BaseColor, PackedTexture,
};
use usd_bevy::route::camera::{projection_of, ProjectionPlan};
use usd_bevy::route::coverage::{marker_of, Marker};
use usd_bevy::route::geom::{
    attach, is_mesh_prim, read_effective_purpose, resolve, touches_geometry, touches_visibility,
    DisplayPurposes, MeshStep,
};
use usd_bevy::route::instancer::{
    bake_prototype, invisible_ids, is_prototype_source, project_instances, prototype_nodes,
    prototype_visibility, prototypes_to_bake, read_point_instancer,
};
use usd_bevy::route::material::{
    material_property, patches_material, to_standard_material, PreviewColor,
};
use usd_bevy::route::shapes::{shape_mesh, Axis, ShapePlan};
use usd_bevy::route::signature::{Lanes3, ReadPreviewMaterial};
use usd_bevy::stage::{
    Attribute, Authored, Prim, Quad, Relationship, Scalar, Stage, Triple, Value,
};

fn stage() -> Stage {
    Stage { prims: vec![], absent_files: vec![] }
}

fn define(stage: &mut Stage, path: &str, kind: &str) {
    stage.prims.push(Prim::new(path, Some(kind.into())));
    if let Some((parent, name)) = path.rsplit_once('/') {
        if let Some(p) = stage.prims.iter_mut().find(|p| p.path == parent) {
            p.child_names.push(name.into());
        }
    }
}

fn set(stage: &mut Stage, path: &str, name: &str, value: Value) {
    let mut attribute = Attribute::new(name);
    attribute.at_default = Ok(Some(Authored { shown: format!("{value:?}"), value }));
    stage
        .prims
        .iter_mut()
        .find(|p| p.path == path)
        .expect("a defined prim")
        .attributes
        .push(attribute);
}

fn f(value: f32) -> Scalar {
    Scalar::F32(value.to_bits())
}

fn point(x: f32, y: f32, z: f32) -> Triple {
    Triple { x: f(x), y: f(y), z: f(z) }
}

fn preview() -> ReadPreviewMaterial {
    ReadPreviewMaterial {
        diffuse_color: None,
        opacity: None,
        opacity_threshold: None,
        roughness: None,
        metallic: None,
        emissive_color: None,
        ior: None,
        diffuse_texture: None,
        normal_texture: None,
        roughness_texture: None,
        metallic_texture: None,
        opacity_texture: None,
        emissive_texture: None,
        occlusion_texture: None,
        uv_transform: None,
    }
}

fn rgb(r: f32, g: f32, b: f32) -> Lanes3 {
    Lanes3 { x: r.to_bits(), y: g.to_bits(), z: b.to_bits() }
}

#[test]
fn camera_projects_perspective() {
    let mut s = stage();
    define(&mut s, "/Cam", "Camera");
    set(&mut s, "/Cam", "focalLength", Value::Float(50.0f32.to_bits()));
    set(&mut s, "/Cam", "verticalAperture", Value::Float(24.0f32.to_bits()));
    set(
        &mut s,
        "/Cam",
        "clippingRange",
        Value::Vec2f(0.5f32.to_bits(), 500.0f32.to_bits()),
    );
    assert_eq!(
        projection_of(&s, "/Cam"),
        ProjectionPlan::Perspective {
            aperture: f(24.0),
            focal: f(50.0),
            near: f(0.5),
            far: f(500.0)
        }
    );
}

#[test]
fn cameras_have_fallbacks() {
    let mut s = stage();
    define(&mut s, "/Cam", "Camera");
    assert_eq!(
        projection_of(&s, "/Cam"),
        ProjectionPlan::Perspective {
            aperture: f(15.2955),
            focal: f(50.0),
            near: f(0.1),
            far: f(1_000_000.0)
        }
    );
    set(&mut s, "/Cam", "projection", Value::Token("orthographic".into()));
    assert_eq!(
        projection_of(&s, "/Cam"),
        ProjectionPlan::Orthographic { near: f(0.1), far: f(1_000_000.0) }
    );
    define(&mut s, "/X", "Xform");
    assert_eq!(projection_of(&s, "/X"), ProjectionPlan::Unchanged);
}

#[test]
fn render_proc_ui_project_markers() {
    let mut s = stage();
    define(&mut s, "/Render", "Scope");
    define(&mut s, "/Render/Settings", "RenderSettings");
    define(&mut s, "/Proc", "GenerativeProcedural");
    define(&mut s, "/Note", "Backdrop");
    set(&mut s, "/Note", "ui:description", Value::Text("a note".into()));
    set(
        &mut s,
        "/Render/Settings",
        "includedPurposes",
        Value::TokenVec(vec!["default".into(), "render".into()]),
    );

    match marker_of(&s, "/Render/Settings") {
        Some(Marker::RenderSettings(m)) => {
            assert_eq!(m.included_purposes, ["default", "render"]);
            assert_eq!(m.color_space, None);
        }
        other => panic!("render settings marker, got {other:?}"),
    }
    match marker_of(&s, "/Proc") {
        Some(Marker::Procedural(m)) => assert_eq!(m.system, None),
        other => panic!("procedural marker, got {other:?}"),
    }
    match marker_of(&s, "/Note") {
        Some(Marker::Backdrop(m)) => assert_eq!(m.description.as_deref(), Some("a note")),
        other => panic!("backdrop marker, got {other:?}"),
    }
    assert!(marker_of(&s, "/Render").is_none());
}

fn purpose_stage() -> Stage {
    let mut s = stage();
    for (path, purpose) in [
        ("/Plain", None),
        ("/Proxy", Some("proxy")),
        ("/Render", Some("render")),
        ("/Guide", Some("guide")),
    ] {
        define(&mut s, path, "Xform");
        if let Some(p) = purpose {
            set(&mut s, path, "purpose", Value::Token(p.into()));
        }
    }
    define(&mut s, "/Grp", "Scope");
    set(&mut s, "/Grp", "purpose", Value::Token("proxy".into()));
    define(&mut s, "/Grp/Child", "Xform");
    s
}

fn hidden(stage: &Stage, purposes: DisplayPurposes, path: &str) -> bool {
    resolve(stage, path, purposes, false).0
}

#[test]
fn default_shows_proxy_hides_render_and_guide() {
    let s = purpose_stage();
    let purposes = DisplayPurposes::default();
    assert!(!hidden(&s, purposes, "/Plain"), "default purpose shown");
    assert!(!hidden(&s, purposes, "/Proxy"), "proxy shown by default");
    assert!(hidden(&s, purposes, "/Render"), "render hidden by default");
    assert!(hidden(&s, purposes, "/Guide"), "guide hidden by default");
    assert!(!hidden(&s, purposes, "/Grp/Child"), "inherits proxy");
    assert_eq!(read_effective_purpose(&s, "/Grp/Child"), "proxy");
    assert_eq!(resolve(&s, "/Grp/Child", purposes, false).1, "proxy");
}

#[test]
fn render_toggle_swaps_proxy_and_render() {
    let s = purpose_stage();
    let purposes = DisplayPurposes { render: true, proxy: false, guide: false };
    assert!(!hidden(&s, purposes, "/Render"), "render shown when toggled on");
    assert!(hidden(&s, purposes, "/Proxy"), "proxy hidden when toggled off");
    assert!(!hidden(&s, purposes, "/Plain"), "default always shown");
}

#[test]
fn invisible_prims_and_prototype_sources_are_hidden() {
    let mut s = purpose_stage();
    set(&mut s, "/Plain", "visibility", Value::Token("invisible".into()));
    let purposes = DisplayPurposes::default();
    assert!(hidden(&s, purposes, "/Plain"));
    assert!(resolve(&s, "/Proxy", purposes, true).0);
}

#[test]
fn purpose_patch_does_not_rebuild_mesh_assets() {
    let changed = vec!["purpose".to_string()];
    assert!(touches_visibility(&changed));
    assert!(!touches_geometry(&changed));
    assert!(touches_geometry(&vec!["points".to_string()]));
    assert!(!touches_visibility(&vec!["points".to_string()]));
    assert_eq!(attach(false, true, true), MeshStep::Attach);
    assert_eq!(attach(true, true, true), MeshStep::Detach);
    assert_eq!(attach(false, true, false), MeshStep::Unavailable);
    assert_eq!(attach(false, false, true), MeshStep::Skip);
    assert!(is_mesh_prim(&Some("Mesh".into()), false));
    assert!(!is_mesh_prim(&Some("Xform".into()), false));
}

fn instancer(positions: Vec<Triple>) -> Stage {
    let mut s = stage();
    define(&mut s, "/PI", "PointInstancer");
    let count = positions.len();
    set(&mut s, "/PI", "positions", Value::Vec3fVec(positions));
    set(&mut s, "/PI", "protoIndices", Value::IntVec(vec![0; count]));
    s
}

#[test]
fn point_instancer_spawns_instance_entities() {
    let s = instancer(vec![point(0.0, 0.0, 0.0), point(5.0, 0.0, 0.0), point(0.0, 5.0, 0.0)]);
    let read = read_point_instancer(&s, "/PI").unwrap();
    let instances = project_instances(&read, &invisible_ids(&s, "/PI"));
    assert_eq!(instances.len(), 3, "one child entity per instance");
    assert!(
        instances.iter().any(|i| i.translation == point(5.0, 0.0, 0.0)),
        "instance transform placed from positions"
    );
}

#[test]
fn point_instancer_projects_mesh_below_xform_prototype() {
    let mut s = instancer(vec![point(0.0, 0.0, 0.0), point(5.0, 0.0, 0.0)]);
    define(&mut s, "/PI/Prototypes", "Scope");
    define(&mut s, "/PI/Prototypes/Chair", "Xform");
    define(&mut s, "/PI/Prototypes/Chair/Geo", "Mesh");
    s.prims[0].relationships.push(Relationship {
        name: "prototypes".into(),
        targets: Ok(vec!["/PI/Prototypes/Chair".into()]),
    });

    let read = read_point_instancer(&s, "/PI").unwrap();
    let instances = project_instances(&read, &invisible_ids(&s, "/PI"));
    assert_eq!(instances.len(), 2);
    assert_eq!(prototypes_to_bake(&instances), [0], "instances share the baked mesh handle");
    let meshes = vec!["/PI/Prototypes/Chair/Geo".to_string()];
    let nodes = bake_prototype(&s, &read, 0, &meshes).expect("nested prototype mesh is rendered");
    let paths: Vec<&str> = nodes.iter().map(|n| n.path.as_str()).collect();
    assert_eq!(paths, ["/PI/Prototypes/Chair", "/PI/Prototypes/Chair/Geo"]);
    assert_eq!(nodes[0].parent, None, "prototype-root transform is preserved");
    assert_eq!(nodes[1].parent, Some(0), "every instance gets the subtree");
    assert!(bake_prototype(&s, &read, 0, &vec![]).is_none());
    assert!(bake_prototype(&s, &read, 1, &meshes).is_none());
    assert_eq!(prototype_nodes(&s, "/PI/Prototypes/Chair/Geo").len(), 1);
    let shown = DisplayPurposes::default();
    assert!(!prototype_visibility(&s, "/PI/Prototypes/Chair/Geo", shown));
    set(&mut s, "/PI/Prototypes/Chair", "purpose", Value::Token("guide".into()));
    assert!(prototype_visibility(&s, "/PI/Prototypes/Chair/Geo", shown));
}

#[test]
fn prototypes_are_instancer_sources() {
    let mut s = instancer(vec![point(0.0, 0.0, 0.0)]);
    s.prims[0].relationships.push(Relationship {
        name: "prototypes".into(),
        targets: Ok(vec!["/PI/Chair".into()]),
    });
    assert!(is_prototype_source(&s, "/PI/Chair"));
    assert!(is_prototype_source(&s, "/PI/Chair/Geo"));
    assert!(!is_prototype_source(&s, "/PI/Chairs"));
    assert!(!is_prototype_source(&s, "/PI"));
    s.prims[0].prim_type = Ok(Some("Xform".into()));
    assert!(!is_prototype_source(&s, "/PI/Chair"));
}

#[test]
fn invisible_ids_are_culled() {
    let mut s = instancer(vec![point(0.0, 0.0, 0.0), point(1.0, 0.0, 0.0), point(2.0, 0.0, 0.0)]);
    set(&mut s, "/PI", "ids", Value::Int64Vec(vec![10, 20, 30]));
    set(&mut s, "/PI", "invisibleIds", Value::Int64Vec(vec![20]));
    let read = read_point_instancer(&s, "/PI").unwrap();
    let instances = project_instances(&read, &invisible_ids(&s, "/PI"));
    assert_eq!(instances.len(), 2, "the invisible instance was culled (3 to 2)");
    assert_eq!((instances[0].index, instances[1].index), (0, 2));
}

#[test]
fn instances_without_ids_go_by_their_index() {
    let mut s = instancer(vec![point(0.0, 0.0, 0.0), point(1.0, 0.0, 0.0)]);
    set(&mut s, "/PI", "invisibleIds", Value::IntVec(vec![0]));
    set(&mut s, "/PI", "orientations", Value::QuatfVec(vec![Quad {
        w: f(1.0),
        x: f(0.0),
        y: f(0.0),
        z: f(0.0),
    }]));
    set(&mut s, "/PI", "scales", Value::Vec3fVec(vec![point(1.0, 1.0, 1.0), point(2.0, 2.0, 2.0)]));
    let read = read_point_instancer(&s, "/PI").unwrap();
    let instances = project_instances(&read, &invisible_ids(&s, "/PI"));
    assert_eq!(instances.len(), 1);
    assert_eq!(instances[0].index, 1);
    assert_eq!(instances[0].rotation, None);
    assert_eq!(instances[0].scale, Some(point(2.0, 2.0, 2.0)));
    assert!(read_point_instancer(&s, "/None").is_none());
}

#[test]
fn material_patch_filter_ignores_purpose() {
    assert!(!material_property("purpose"));
    assert!(!material_property("points"));
    assert!(material_property("material:binding"));
    assert!(material_property("material:binding:preview"));
    assert!(!patches_material(&vec!["purpose".to_string()]));
    assert!(patches_material(&vec!["purpose".to_string(), "material:binding".to_string()]));
}

#[test]
fn opaque_material_maps_channels() {
    let read = ReadPreviewMaterial {
        diffuse_color: Some(rgb(0.2, 0.4, 0.6)),
        roughness: Some(0.3f32.to_bits()),
        metallic: Some(0.8f32.to_bits()),
        emissive_color: Some(rgb(1.0, 0.0, 0.0)),
        ior: Some(1.4f32.to_bits()),
        ..preview()
    };
    let m = to_standard_material(&read, false);
    assert_eq!(m.base_color, PreviewColor::Srgba(rgb(0.2, 0.4, 0.6), 1.0f32.to_bits()));
    assert_eq!(m.roughness, Some(0.3f32.to_bits()));
    assert_eq!(m.metallic, Some(0.8f32.to_bits()));
    assert_eq!(m.ior, Some(1.4f32.to_bits()));
    assert_eq!(m.emissive, Some(rgb(1.0, 0.0, 0.0)));
    assert!(!m.blend, "opaque by default");
}

#[test]
fn translucent_material_sets_blend() {
    let read = ReadPreviewMaterial {
        diffuse_color: Some(rgb(1.0, 1.0, 1.0)),
        opacity: Some(0.5f32.to_bits()),
        ..preview()
    };
    let m = to_standard_material(&read, false);
    assert_eq!(m.base_color, PreviewColor::Srgba(rgb(1.0, 1.0, 1.0), 0.5f32.to_bits()));
    assert!(m.blend, "opacity below one blends");
}

#[test]
fn empty_material_is_default_ish() {
    let m = to_standard_material(&preview(), false);
    assert_eq!(m.base_color, PreviewColor::Unchanged);
    assert!(!m.blend);
    assert_eq!((m.roughness, m.metallic, m.ior), (None, None, None));
}

#[test]
fn textures_need_an_asset_server() {
    let read = || ReadPreviewMaterial {
        diffuse_texture: Some("d.png".into()),
        metallic_texture: Some("m.png".into()),
        roughness_texture: Some("r.png".into()),
        opacity: Some(1.5f32.to_bits()),
        ..preview()
    };
    let with = to_standard_material(&read(), true);
    assert_eq!(with.base_color_texture.as_deref(), Some("d.png"));
    assert_eq!(with.metallic_roughness_texture.as_deref(), Some("m.png"));
    assert_eq!(with.base_color, PreviewColor::AlphaOnly(1.5f32.to_bits()));
    assert!(!with.blend);
    assert_eq!(to_standard_material(&read(), false).base_color_texture, None);
}

#[test]
fn preview_surfaces_become_standard_materials() {
    let plain = standard_material_from_usd(&preview());
    assert_eq!(plain.base_color, BaseColor::Grey);
    assert_eq!(plain.roughness, 1.0f32.to_bits());
    assert_eq!(plain.metallic, 1.0f32.to_bits());
    assert_eq!(plain.alpha_mode, AlphaMode::Opaque);

    let textured = standard_material_from_usd(&ReadPreviewMaterial {
        diffuse_texture: Some("d.png".into()),
        metallic_texture: Some("m.png".into()),
        roughness_texture: Some("r.png".into()),
        opacity_texture: Some("o.png".into()),
        ..preview()
    });
    assert_eq!(textured.base_color, BaseColor::White);
    assert_eq!(textured.alpha_mode, AlphaMode::Blend);
    match textured.metallic_roughness_texture {
        PackedTexture::Packed { roughness, metallic } => {
            assert_eq!((roughness.as_str(), metallic.as_str()), ("r.png", "m.png"));
        }
        other => panic!("packed, got {other:?}"),
    }

    let shared = standard_material_from_usd(&ReadPreviewMaterial {
        metallic_texture: Some("orm.png".into()),
        roughness_texture: Some("orm.png".into()),
        opacity: Some(0.5f32.to_bits()),
        opacity_threshold: Some(0.25f32.to_bits()),
        ..preview()
    });
    assert!(matches!(shared.metallic_roughness_texture, PackedTexture::Single(p) if p == "orm.png"));
    assert_eq!(shared.alpha_mode, AlphaMode::Mask(0.25f32.to_bits()));

    let faint = standard_material_from_usd(&ReadPreviewMaterial {
        diffuse_color: Some(rgb(0.1, 0.2, 0.3)),
        opacity: Some(0.5f32.to_bits()),
        opacity_threshold: Some(0.0f32.to_bits()),
        ..preview()
    });
    assert_eq!(faint.alpha_mode, AlphaMode::Blend);
    assert_eq!(faint.alpha, Some(0.5f32.to_bits()));
    assert_eq!(faint.base_color, BaseColor::Linear(rgb(0.1, 0.2, 0.3)));
}

#[test]
fn unbound_geometry_has_a_material() {
    let (r, g, b, roughness, metallic) = default_material();
    let shown: Vec<f32> = [r, g, b].iter().map(|x| f32::from_bits(*x)).collect();
    assert_eq!(shown, [0.72, 0.72, 0.75]);
    assert_eq!(f32::from_bits(roughness), 0.8);
    assert_eq!(f32::from_bits(metallic), 0.0);
    assert!(material_label("/A/Mat").contains("/A/Mat"));
    assert_ne!(material_label("/A/Mat"), material_label("/A/Other"));
}

#[test]
fn shapes_project_meshes() {
    let mut s = stage();
    for ty in ["Cube", "Sphere", "Cylinder", "Capsule", "Cone", "Plane"] {
        define(&mut s, &format!("/{ty}"), ty);
    }
    for ty in ["Cube", "Sphere", "Cylinder", "Capsule", "Cone", "Plane"] {
        assert!(shape_mesh(&s, &format!("/{ty}")).is_some(), "{ty} projected a primitive mesh");
    }
    define(&mut s, "/Mesh", "Mesh");
    assert!(shape_mesh(&s, "/Mesh").is_none());
    assert_eq!(
        shape_mesh(&s, "/Capsule"),
        Some(ShapePlan::Capsule { radius: f(0.5), height: f(1.0), axis: Axis::Z })
    );
    set(&mut s, "/Cone", "axis", Value::Token("X".into()));
    assert_eq!(
        shape_mesh(&s, "/Cone"),
        Some(ShapePlan::Cone { radius: f(1.0), height: f(2.0), axis: Axis::X })
    );
}

#[test]
fn cube_size_respected() {
    let mut s = stage();
    define(&mut s, "/C", "Cube");
    set(&mut s, "/C", "size", Value::Double(4.0f64.to_bits()));
    match shape_mesh(&s, "/C") {
        Some(ShapePlan::Cube { size: Scalar::F64(bits) }) => {
            // A size-4 cube spans [-2, 2] on each axis.
            let max_x = f64::from_bits(bits) / 2.0;
            assert!((max_x - 2.0).abs() < 1e-4, "cube half-extent from size, got {max_x}");
        }
        other => panic!("a cube, got {other:?}"),
    }
}

#[test]
fn roughness_and_metallic_are_packed() {
    let rough = vec![10, 0, 0, 255, 20, 0, 0, 255];
    let metal = vec![30, 1, 1, 255, 40, 1, 1, 255];
    assert_eq!(
        pack_metallic_roughness(&rough, &metal),
        Some(vec![255, 10, 30, 255, 255, 20, 40, 255])
    );
    assert_eq!(pack_metallic_roughness(&rough, &vec![1, 2, 3, 4]), None);
    assert_eq!(pack_metallic_roughness(&vec![1], &vec![2]), None);
}
