use std::collections::HashMap;

use bevy::asset::RenderAssetUsages;
use bevy::math::primitives::Cuboid;
use bevy::mesh::{Indices, Mesh, PrimitiveTopology, VertexAttributeValues};
use usd_bevy::route::cache::{waiting_entities, MeshRequest, ProjectionCache, MAX_INTERNED};
use usd_bevy::route::signature::{
    mesh_signature, preview_material_signature, preview_material_words, usd_mesh_signature,
    usd_mesh_words, AttributeLanes, BuiltMesh, Interpolation, Lanes3, MeshIndices, MeshInputs,
    MeshPrimvar, Orientation, ReadPreviewMaterial, UvTransform,
};

fn lanes(values: &[f32]) -> Vec<u32> {
    values.iter().map(|v| v.to_bits()).collect()
}

fn triangle(offset: f32) -> MeshInputs {
    MeshInputs {
        points: lanes(&[offset, 0.0, 0.0, offset + 1.0, 0.0, 0.0, offset, 1.0, 0.0]),
        face_vertex_counts: vec![3],
        face_vertex_indices: vec![0, 1, 2],
        normals: Some(MeshPrimvar {
            lanes: lanes(&[0.0, 0.0, 1.0, 0.0, 0.0, 1.0, 0.0, 0.0, 1.0]),
            interpolation: Interpolation::Vertex,
            indices: Vec::new(),
        }),
        uvs: Some(MeshPrimvar {
            lanes: lanes(&[0.0, 0.0, 1.0, 0.0, 0.0, 1.0]),
            interpolation: Interpolation::Vertex,
            indices: Vec::new(),
        }),
        orientation: Orientation::RightHanded,
        display_color: None,
        display_opacity: None,
    }
}

fn preview() -> ReadPreviewMaterial {
    ReadPreviewMaterial {
        diffuse_color: None,
        opacity: None,
        opacity_threshold: None,
        roughness: None,
        metallic: None,
        emissive_color: None,
        ior: None,
        diffuse_texture: None,
        normal_texture: None,
        roughness_texture: None,
        metallic_texture: None,
        opacity_texture: None,
        emissive_texture: None,
        occlusion_texture: None,
        uv_transform: None,
    }
}

fn attribute(mesh: &Mesh, id: bevy::mesh::MeshVertexAttribute) -> AttributeLanes {
    match mesh.attribute(id) {
        None => AttributeLanes::Absent,
        Some(VertexAttributeValues::Float32x2(v)) => {
            AttributeLanes::Float32x2(v.iter().flatten().map(|x| x.to_bits()).collect())
        }
        Some(VertexAttributeValues::Float32x3(v)) => {
            AttributeLanes::Float32x3(v.iter().flatten().map(|x| x.to_bits()).collect())
        }
        Some(VertexAttributeValues::Float32x4(v)) => {
            AttributeLanes::Float32x4(v.iter().flatten().map(|x| x.to_bits()).collect())
        }
        Some(other) => AttributeLanes::OtherOfLength(other.len()),
    }
}

fn built(mesh: &Mesh) -> BuiltMesh {
    BuiltMesh {
        topology: mesh.primitive_topology() as u8,
        indices: match mesh.indices() {
            None => MeshIndices::Absent,
            Some(Indices::U16(v)) => MeshIndices::U16(v.clone()),
            Some(Indices::U32(v)) => MeshIndices::U32(v.clone()),
        },
        positions: attribute(mesh, Mesh::ATTRIBUTE_POSITION),
        normals: attribute(mesh, Mesh::ATTRIBUTE_NORMAL),
        uvs: attribute(mesh, Mesh::ATTRIBUTE_UV_0),
        colors: attribute(mesh, Mesh::ATTRIBUTE_COLOR),
    }
}

/// Interns a mesh as the host does: one handle per signature.
fn intern(cache: &mut ProjectionCache<u32, u32, u32>, mesh: &Mesh, next: &mut u32) -> u32 {
    let signature = mesh_signature(&built(mesh));
    if let Some(handle) = cache.mesh(signature) {
        return *handle;
    }
    *next += 1;
    cache.intern_mesh(signature, *next);
    *next
}

#[test]
fn raw_usd_signature_deduplicates_before_baking() {
    let a = triangle(0.0);
    let b = triangle(0.0);
    let c = triangle(2.0);
    assert_eq!(usd_mesh_signature(&a), usd_mesh_signature(&b));
    assert_ne!(usd_mesh_signature(&a), usd_mesh_signature(&c));
}

#[test]
fn duplicate_async_requests_share_one_bake_and_handle() {
    let mut cache: ProjectionCache<u32, u32, u32> = ProjectionCache::new();
    let (a, b) = (1, 2);
    let signature = usd_mesh_signature(&triangle(0.0));
    let mut requests: HashMap<u64, u64> = HashMap::new();

    requests.insert(a, signature);
    assert_eq!(cache.request_usd_mesh(a, signature, true, true), MeshRequest::Spawn);
    cache.start_bake(signature, 7, a, "/A");
    let again = usd_mesh_signature(&triangle(0.0));
    requests.insert(b, again);
    assert_eq!(cache.request_usd_mesh(b, again, true, true), MeshRequest::Joined);
    assert_eq!(cache.running(), 1, "one conversion for identical inputs");
    assert_eq!(cache.conversion(0).entities.len(), 2);

    let mut finished = cache.take_completed(&vec![true]);
    assert_eq!(finished.len(), 1);
    let done = finished.remove(0);
    cache.add_usd_mesh(done.signature, 70);
    assert_eq!(waiting_entities(&done.entities, done.signature, &requests), [a, b]);
    assert_eq!(cache.usd_mesh(signature), Some(&70));
    assert_eq!(cache.running(), 0);
    assert_eq!(cache.len(), 1);
    assert_eq!(cache.request_usd_mesh(a, signature, true, true), MeshRequest::Ready);
}

#[test]
fn stale_async_result_does_not_replace_newer_geometry() {
    let mut cache: ProjectionCache<u32, u32, u32> = ProjectionCache::new();
    let entity = 5;
    let mut requests: HashMap<u64, u64> = HashMap::new();
    let old = usd_mesh_signature(&triangle(0.0));
    let new = usd_mesh_signature(&triangle(10.0));

    requests.insert(entity, old);
    assert_eq!(cache.request_usd_mesh(entity, old, true, true), MeshRequest::Spawn);
    cache.start_bake(old, 1, entity, "/Old");
    requests.insert(entity, new);
    assert_eq!(cache.request_usd_mesh(entity, new, true, true), MeshRequest::Spawn);
    cache.start_bake(new, 2, entity, "/New");

    let mut attached = Vec::new();
    for done in cache.take_completed(&vec![true, true]) {
        for e in waiting_entities(&done.entities, done.signature, &requests) {
            attached.push((e, done.task));
        }
    }
    assert_eq!(cache.running(), 0, "both conversion jobs completed");
    assert_eq!(attached, [(entity, 2)], "new mesh attached");
}

#[test]
fn identical_preview_materials_share_one_handle() {
    let mut cache: ProjectionCache<u32, u32, u32> = ProjectionCache::new();
    let read = || ReadPreviewMaterial {
        diffuse_color: Some(Lanes3 {
            x: 0.2f32.to_bits(),
            y: 0.4f32.to_bits(),
            z: 0.6f32.to_bits(),
        }),
        roughness: Some(0.3f32.to_bits()),
        ..preview()
    };
    let a = preview_material_signature(&read(), false);
    assert!(cache.material(a).is_none());
    cache.intern_preview_material(a, 9);
    let b = preview_material_signature(&read(), false);
    assert_eq!(a, b);
    assert_eq!(cache.material(b), Some(&9));
    assert_ne!(a, preview_material_signature(&read(), true));
}

#[test]
fn signature_folds_color_and_is_deterministic() {
    let mk = |color: [f32; 4]| {
        let mut m = Mesh::new(PrimitiveTopology::TriangleList, RenderAssetUsages::default());
        m.insert_attribute(
            Mesh::ATTRIBUTE_POSITION,
            vec![[0.0, 0.0, 0.0], [1.0, 0.0, 0.0], [0.0, 1.0, 0.0]],
        );
        m.insert_attribute(Mesh::ATTRIBUTE_COLOR, vec![color; 3]);
        built(&m)
    };
    let red = mesh_signature(&mk([1.0, 0.0, 0.0, 1.0]));
    let blue = mesh_signature(&mk([0.0, 0.0, 1.0, 1.0]));
    assert_ne!(red, blue, "vertex color must affect the signature");
    assert_eq!(
        red,
        mesh_signature(&mk([1.0, 0.0, 0.0, 1.0])),
        "identical meshes must hash identically"
    );
}

#[test]
fn identical_prims_share_one_mesh() {
    let mut cache: ProjectionCache<u32, u32, u32> = ProjectionCache::new();
    let mut next = 0;
    let a = intern(&mut cache, &Mesh::from(Cuboid::from_length(2.0)), &mut next);
    let b = intern(&mut cache, &Mesh::from(Cuboid::from_length(2.0)), &mut next);
    assert_eq!(a, b, "identical cubes share one interned mesh handle");
    assert_eq!(cache.len(), 1, "one distinct mesh");
}

#[test]
fn differing_geometry_is_not_aliased() {
    let mut cache: ProjectionCache<u32, u32, u32> = ProjectionCache::new();
    let mut next = 0;
    let s = intern(&mut cache, &Mesh::from(Cuboid::from_length(1.0)), &mut next);
    let b = intern(&mut cache, &Mesh::from(Cuboid::from_length(4.0)), &mut next);
    assert_ne!(s, b, "different-sized cubes must not share a mesh");
    assert_eq!(cache.len(), 2, "two distinct meshes");
}

#[test]
fn different_inputs_have_different_words() {
    let base = usd_mesh_words(&triangle(0.0));
    assert_eq!(base, usd_mesh_words(&triangle(0.0)));
    let mut turned = triangle(0.0);
    turned.orientation = Orientation::LeftHanded;
    assert_ne!(base, usd_mesh_words(&turned));
    let mut bare = triangle(0.0);
    bare.uvs = None;
    assert_ne!(base, usd_mesh_words(&bare));
    let mut flat = triangle(0.0);
    flat.normals.as_mut().unwrap().interpolation = Interpolation::Uniform;
    assert_ne!(base, usd_mesh_words(&flat));

    let plain = preview_material_words(&preview(), true);
    let mut textured = preview();
    textured.normal_texture = Some("n.png".into());
    assert_ne!(plain, preview_material_words(&textured, true));
    let mut swapped = preview();
    swapped.diffuse_texture = Some("n.png".into());
    assert_ne!(preview_material_words(&textured, true), preview_material_words(&swapped, true));
    let mut turned = preview();
    turned.uv_transform = Some(UvTransform {
        translation_x: 0,
        translation_y: 0,
        scale_x: 1.0f32.to_bits(),
        scale_y: 1.0f32.to_bits(),
        rotation_deg: 45.0f32.to_bits(),
    });
    assert_ne!(plain, preview_material_words(&turned, true));
}

#[test]
fn no_pool_bakes_at_once() {
    let mut cache: ProjectionCache<u32, u32, u32> = ProjectionCache::new();
    assert_eq!(cache.request_usd_mesh(1, 11, true, false), MeshRequest::BakeNow);
    assert_eq!(cache.running(), 0);
}

#[test]
fn full_tables_start_over() {
    let mut cache: ProjectionCache<u32, u32, u32> = ProjectionCache::new();
    assert!(cache.is_empty());
    for i in 0..MAX_INTERNED as u64 {
        if i % 2 == 0 {
            cache.intern_mesh(i, 0);
        } else {
            cache.add_usd_mesh(i, 0);
        }
    }
    assert_eq!(cache.len(), MAX_INTERNED);
    cache.intern_mesh(MAX_INTERNED as u64, 1);
    assert_eq!(cache.len(), 1);
    assert_eq!(cache.mesh(MAX_INTERNED as u64), Some(&1));
    assert_eq!(cache.usd_mesh(1), None);
    for i in 0..=MAX_INTERNED as u64 {
        cache.intern_preview_material(i, 2);
    }
    assert_eq!(cache.material(0), None);
    assert_eq!(cache.material(MAX_INTERNED as u64), Some(&2));
}

#[test]
fn dropped_entities_leave_their_conversion() {
    let mut cache: ProjectionCache<u32, u32, u32> = ProjectionCache::new();
    let mut requests: HashMap<u64, u64> = HashMap::new();
    for (entity, signature) in [(1, 10), (2, 10), (3, 20)] {
        requests.insert(entity, signature);
        if cache.request_usd_mesh(entity, signature, true, true) == MeshRequest::Spawn {
            cache.start_bake(signature, 0, entity, "/P");
        }
    }
    assert_eq!(cache.running(), 2);
    requests.remove(&3);
    requests.remove(&1);
    cache.retain_live(&requests);
    assert_eq!(cache.running(), 1);
    assert_eq!(cache.conversion(0).signature, 10);
    assert_eq!(cache.conversion(0).entities, [2]);
}

#[test]
fn four_conversions_finish_per_frame() {
    let mut cache: ProjectionCache<u32, u32, u64> = ProjectionCache::new();
    for signature in 0..7 {
        let request = cache.request_usd_mesh(signature, signature, true, true);
        assert_eq!(request, MeshRequest::Spawn);
        cache.start_bake(signature, signature, signature, "/P");
    }
    let taken = cache.take_completed(&vec![true, false, true, true, false, true, true]);
    let taken: Vec<u64> = taken.iter().map(|p| p.signature).collect();
    assert_eq!(taken, [0, 2, 3, 5]);
    let left: Vec<u64> = (0..cache.running()).map(|i| cache.conversion(i).signature).collect();
    assert_eq!(left, [1, 4, 6]);
}
