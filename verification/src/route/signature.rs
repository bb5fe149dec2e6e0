//! What identifies geometry and materials: the numbers that are hashed to find
//! an equal mesh or material again. Float lanes go in by their bit pattern, so
//! that only exactly equal content is shared.

use crate::hash::{fixed_hash, hashes_to};
use crate::text::{chars_of, opt_view};
use vstd::prelude::*;

verus! {

/// How the values of a primvar spread over a mesh.
#[derive(Debug, Clone, Copy, PartialEq, Eq, Structural)]
pub enum Interpolation {
    Constant,
    Uniform,
    Varying,
    Vertex,
    FaceVarying,
}

/// The winding of the faces.
#[derive(Debug, Clone, Copy, PartialEq, Eq, Structural)]
pub enum Orientation {
    RightHanded,
    LeftHanded,
}

/// A primvar, with its values as consecutive float lanes.
#[derive(Debug)]
pub struct MeshPrimvar {
    pub lanes: Vec<u32>,
    pub interpolation: Interpolation,
    pub indices: Vec<i32>,
}

/// The parts of a USD mesh that its conversion reads, with points and primvars
/// as consecutive float lanes.
#[derive(Debug)]
pub struct MeshInputs {
    pub points: Vec<u32>,
    pub face_vertex_counts: Vec<i32>,
    pub face_vertex_indices: Vec<i32>,
    pub normals: Option<MeshPrimvar>,
    pub uvs: Option<MeshPrimvar>,
    pub orientation: Orientation,
    pub display_color: Option<MeshPrimvar>,
    pub display_opacity: Option<MeshPrimvar>,
}

/// A primvar, as sequences.
#[verifier::ext_equal]
pub struct PrimvarView {
    pub lanes: Seq<u32>,
    pub interpolation: Interpolation,
    pub indices: Seq<i32>,
}

/// The parts of a mesh, as sequences.
#[verifier::ext_equal]
pub struct MeshInputsView {
    pub points: Seq<u32>,
    pub face_vertex_counts: Seq<i32>,
    pub face_vertex_indices: Seq<i32>,
    pub normals: Option<PrimvarView>,
    pub uvs: Option<PrimvarView>,
    pub orientation: Orientation,
    pub display_color: Option<PrimvarView>,
    pub display_opacity: Option<PrimvarView>,
}

impl View for MeshPrimvar {
    type V = PrimvarView;

    open spec fn view(&self) -> PrimvarView {
        PrimvarView {
            lanes: self.lanes@,
            interpolation: self.interpolation,
            indices: self.indices@,
        }
    }
}

/// An optional primvar, as sequences.
pub open spec fn primvar_view(value: Option<MeshPrimvar>) -> Option<PrimvarView> {
    match value {
        Some(p) => Some(p@),
        None => None,
    }
}

impl View for MeshInputs {
    type V = MeshInputsView;

    open spec fn view(&self) -> MeshInputsView {
        MeshInputsView {
            points: self.points@,
            face_vertex_counts: self.face_vertex_counts@,
            face_vertex_indices: self.face_vertex_indices@,
            normals: primvar_view(self.normals),
            uvs: primvar_view(self.uvs),
            orientation: self.orientation,
            display_color: primvar_view(self.display_color),
            display_opacity: primvar_view(self.display_opacity),
        }
    }
}

/// The length of the lanes, then the lanes.
#[verifier::opaque]
pub open spec fn lane_words(lanes: Seq<u32>) -> Seq<i128> {
    seq![lanes.len() as i128] + lanes.map_values(|x: u32| x as i128)
}

/// The length of the integers, then the integers.
#[verifier::opaque]
pub open spec fn int_words(ints: Seq<i32>) -> Seq<i128> {
    seq![ints.len() as i128] + ints.map_values(|x: i32| x as i128)
}

/// The length of the text, then its code points.
#[verifier::opaque]
pub open spec fn text_words(text: Seq<char>) -> Seq<i128> {
    seq![text.len() as i128] + text.map_values(|c: char| c as u32 as i128)
}

/// A number for each interpolation.
pub open spec fn interpolation_tag(value: Interpolation) -> i128 {
    match value {
        Interpolation::Constant => 0,
        Interpolation::Uniform => 1,
        Interpolation::Varying => 2,
        Interpolation::Vertex => 3,
        Interpolation::FaceVarying => 4,
    }
}

/// A number for each winding.
pub open spec fn orientation_tag(value: Orientation) -> i128 {
    match value {
        Orientation::RightHanded => 0,
        Orientation::LeftHanded => 1,
    }
}

/// Zero without a primvar; one, then its parts, with one.
pub open spec fn primvar_words(value: Option<PrimvarView>) -> Seq<i128> {
    match value {
        None => seq![0i128],
        Some(p) => seq![1i128] + (seq![interpolation_tag(p.interpolation)] + (lane_words(p.lanes)
            + int_words(p.indices))),
    }
}

/// The numbers that identify a mesh conversion.
pub open spec fn mesh_words(m: MeshInputsView) -> Seq<i128> {
    lane_words(m.points) + (int_words(m.face_vertex_counts) + (int_words(m.face_vertex_indices) + (
    primvar_words(m.normals) + (primvar_words(m.uvs) + (seq![orientation_tag(m.orientation)] + (
    primvar_words(m.display_color) + primvar_words(m.display_opacity)))))))
}

proof fn heads_end(a: i128, r: Seq<i128>, b: i128, s: Seq<i128>)
    requires
        seq![a] + r == seq![b] + s,
    ensures
        a == b,
        r == s,
{
    let x = seq![a] + r;
    let y = seq![b] + s;
    assert(x[0] == a && y[0] == b);
    assert(x.skip(1) =~= r);
    assert(y.skip(1) =~= s);
}

proof fn lanes_end(a: Seq<u32>, r: Seq<i128>, b: Seq<u32>, s: Seq<i128>)
    requires
        lane_words(a) + r == lane_words(b) + s,
        a.len() <= usize::MAX,
        b.len() <= usize::MAX,
    ensures
        a == b,
        r == s,
{
    reveal(lane_words);
    let x = lane_words(a) + r;
    let y = lane_words(b) + s;
    assert(x[0] == a.len() as i128);
    assert(y[0] == b.len() as i128);
    assert forall|i: int| 0 <= i < a.len() implies a[i] == b[i] by {
        assert(x[i + 1] == a[i] as i128);
        assert(y[i + 1] == b[i] as i128);
    }
    assert(a =~= b);
    assert(x.skip(a.len() as int + 1) =~= r);
    assert(y.skip(b.len() as int + 1) =~= s);
}

proof fn ints_end(a: Seq<i32>, r: Seq<i128>, b: Seq<i32>, s: Seq<i128>)
    requires
        int_words(a) + r == int_words(b) + s,
        a.len() <= usize::MAX,
        b.len() <= usize::MAX,
    ensures
        a == b,
        r == s,
{
    reveal(int_words);
    let x = int_words(a) + r;
    let y = int_words(b) + s;
    assert(x[0] == a.len() as i128);
    assert(y[0] == b.len() as i128);
    assert forall|i: int| 0 <= i < a.len() implies a[i] == b[i] by {
        assert(x[i + 1] == a[i] as i128);
        assert(y[i + 1] == b[i] as i128);
    }
    assert(a =~= b);
    assert(x.skip(a.len() as int + 1) =~= r);
    assert(y.skip(b.len() as int + 1) =~= s);
}

proof fn codes_differ(c: char, d: char)
    requires
        c as u32 as i128 == d as u32 as i128,
    ensures
        c == d,
{
}

/// One more piece of `whole` is done.
proof fn regroup(done: Seq<i128>, piece: Seq<i128>, rest: Seq<i128>, whole: Seq<i128>)
    requires
        done + (piece + rest) == whole,
    ensures
        (done + piece) + rest == whole,
{
    assert((done + piece) + rest =~= done + (piece + rest));
}

proof fn texts_end(a: Seq<char>, r: Seq<i128>, b: Seq<char>, s: Seq<i128>)
    requires
        text_words(a) + r == text_words(b) + s,
        a.len() <= usize::MAX,
        b.len() <= usize::MAX,
    ensures
        a == b,
        r == s,
{
    reveal(text_words);
    let x = text_words(a) + r;
    let y = text_words(b) + s;
    assert(x[0] == a.len() as i128);
    assert(y[0] == b.len() as i128);
    assert forall|i: int| 0 <= i < a.len() implies a[i] == b[i] by {
        assert(x[i + 1] == a[i] as u32 as i128);
        assert(y[i + 1] == b[i] as u32 as i128);
        codes_differ(a[i], b[i]);
    }
    assert(a =~= b);
    assert(x.skip(a.len() as int + 1) =~= r);
    assert(y.skip(b.len() as int + 1) =~= s);
}

/// The primvar fits into memory.
pub open spec fn primvar_fits(value: Option<PrimvarView>) -> bool {
    value matches Some(p) ==> p.lanes.len() <= usize::MAX && p.indices.len() <= usize::MAX
}

/// The mesh fits into memory.
pub open spec fn mesh_fits(m: MeshInputsView) -> bool {
    &&& m.points.len() <= usize::MAX
    &&& m.face_vertex_counts.len() <= usize::MAX
    &&& m.face_vertex_indices.len() <= usize::MAX
    &&& primvar_fits(m.normals)
    &&& primvar_fits(m.uvs)
    &&& primvar_fits(m.display_color)
    &&& primvar_fits(m.display_opacity)
}

proof fn primvars_end(
    a: Option<PrimvarView>,
    r: Seq<i128>,
    b: Option<PrimvarView>,
    s: Seq<i128>,
)
    requires
        primvar_words(a) + r == primvar_words(b) + s,
        primvar_fits(a),
        primvar_fits(b),
    ensures
        a == b,
        r == s,
{
    match (a, b) {
        (Some(p), Some(q)) => {
            let a2 = int_words(p.indices) + r;
            let b2 = int_words(q.indices) + s;
            let a1 = seq![interpolation_tag(p.interpolation)] + (lane_words(p.lanes) + a2);
            let b1 = seq![interpolation_tag(q.interpolation)] + (lane_words(q.lanes) + b2);
            assert(primvar_words(a) + r =~= seq![1i128] + a1);
            assert(primvar_words(b) + s =~= seq![1i128] + b1);
            heads_end(1, a1, 1, b1);
            heads_end(
                interpolation_tag(p.interpolation),
                lane_words(p.lanes) + a2,
                interpolation_tag(q.interpolation),
                lane_words(q.lanes) + b2,
            );
            lanes_end(p.lanes, a2, q.lanes, b2);
            ints_end(p.indices, r, q.indices, s);
        },
        (None, None) => {
            heads_end(0, r, 0, s);
        },
        _ => {
            assert((primvar_words(a) + r)[0] == primvar_words(a)[0]);
            assert((primvar_words(b) + s)[0] == primvar_words(b)[0]);
        },
    }
}

/// Two meshes with the same numbers have the same geometry: nothing that the
/// conversion reads is left out or blurred.
pub proof fn mesh_words_tell_meshes_apart(a: MeshInputsView, b: MeshInputsView)
    requires
        mesh_fits(a),
        mesh_fits(b),
        mesh_words(a) == mesh_words(b),
    ensures
        a == b,
{
    let none = Seq::<i128>::empty();
    let a7 = primvar_words(a.display_opacity);
    let b7 = primvar_words(b.display_opacity);
    let a6 = primvar_words(a.display_color) + a7;
    let b6 = primvar_words(b.display_color) + b7;
    let a5 = seq![orientation_tag(a.orientation)] + a6;
    let b5 = seq![orientation_tag(b.orientation)] + b6;
    let a4 = primvar_words(a.uvs) + a5;
    let b4 = primvar_words(b.uvs) + b5;
    let a3 = primvar_words(a.normals) + a4;
    let b3 = primvar_words(b.normals) + b4;
    let a2 = int_words(a.face_vertex_indices) + a3;
    let b2 = int_words(b.face_vertex_indices) + b3;
    let a1 = int_words(a.face_vertex_counts) + a2;
    let b1 = int_words(b.face_vertex_counts) + b2;
    lanes_end(a.points, a1, b.points, b1);
    ints_end(a.face_vertex_counts, a2, b.face_vertex_counts, b2);
    ints_end(a.face_vertex_indices, a3, b.face_vertex_indices, b3);
    primvars_end(a.normals, a4, b.normals, b4);
    primvars_end(a.uvs, a5, b.uvs, b5);
    heads_end(orientation_tag(a.orientation), a6, orientation_tag(b.orientation), b6);
    primvars_end(a.display_color, a7, b.display_color, b7);
    assert(a7 + none =~= a7);
    assert(b7 + none =~= b7);
    primvars_end(a.display_opacity, none, b.display_opacity, none);
}

fn push_lanes(out: &mut Vec<i128>, lanes: &Vec<u32>)
    ensures
        final(out)@ == old(out)@ + lane_words(lanes@),
{
    proof {
        reveal(lane_words);
    }
    out.push(lanes.len() as i128);
    let ghost start = out@;
    for i in 0..lanes.len()
        invariant
            out@ == start + lanes@.take(i as int).map_values(|x: u32| x as i128),
    {
        out.push(lanes[i] as i128);
        assert(out@ =~= start + lanes@.take(i as int + 1).map_values(|x: u32| x as i128));
    }
    assert(lanes@.take(lanes@.len() as int) =~= lanes@);
    assert(out@ =~= old(out)@ + lane_words(lanes@));
}

fn push_ints(out: &mut Vec<i128>, ints: &Vec<i32>)
    ensures
        final(out)@ == old(out)@ + int_words(ints@),
{
    proof {
        reveal(int_words);
    }
    out.push(ints.len() as i128);
    let ghost start = out@;
    for i in 0..ints.len()
        invariant
            out@ == start + ints@.take(i as int).map_values(|x: i32| x as i128),
    {
        out.push(ints[i] as i128);
        assert(out@ =~= start + ints@.take(i as int + 1).map_values(|x: i32| x as i128));
    }
    assert(ints@.take(ints@.len() as int) =~= ints@);
    assert(out@ =~= old(out)@ + int_words(ints@));
}

fn push_text(out: &mut Vec<i128>, text: &str)
    ensures
        final(out)@ == old(out)@ + text_words(text@),
{
    proof {
        reveal(text_words);
    }
    let chars = chars_of(text);
    out.push(chars.len() as i128);
    let ghost start = out@;
    for i in 0..chars.len()
        invariant
            out@ == start + chars@.take(i as int).map_values(|c: char| c as u32 as i128),
    {
        let c: char = chars[i];
        out.push(c as u32 as i128);
        assert(out@ =~= start + chars@.take(i as int + 1).map_values(|c: char| c as u32 as i128));
    }
    assert(chars@.take(chars@.len() as int) =~= chars@);
    assert(out@ =~= old(out)@ + text_words(text@));
}

fn push_primvar(out: &mut Vec<i128>, value: &Option<MeshPrimvar>)
    ensures
        final(out)@ == old(out)@ + primvar_words(primvar_view(*value)),
{
    match value {
        None => {
            out.push(0);
        },
        Some(p) => {
            out.push(1);
            out.push(
                match p.interpolation {
                    Interpolation::Constant => 0,
                    Interpolation::Uniform => 1,
                    Interpolation::Varying => 2,
                    Interpolation::Vertex => 3,
                    Interpolation::FaceVarying => 4,
                },
            );
            push_lanes(out, &p.lanes);
            push_ints(out, &p.indices);
        },
    }
    assert(out@ =~= old(out)@ + primvar_words(primvar_view(*value)));
}

/// The numbers that identify a mesh conversion.
pub fn usd_mesh_words(read: &MeshInputs) -> (r: Vec<i128>)
    ensures
        r@ == mesh_words(read@),
{
    let mut out: Vec<i128> = Vec::new();
    let ghost whole = mesh_words(read@);
    let ghost r7 = primvar_words(read@.display_opacity);
    let ghost r6 = primvar_words(read@.display_color) + r7;
    let ghost r5 = seq![orientation_tag(read@.orientation)] + r6;
    let ghost r4 = primvar_words(read@.uvs) + r5;
    let ghost r3 = primvar_words(read@.normals) + r4;
    let ghost r2 = int_words(read@.face_vertex_indices) + r3;
    let ghost r1 = int_words(read@.face_vertex_counts) + r2;
    assert(whole == lane_words(read@.points) + r1);
    assert(out@ + whole =~= whole);
    proof {
        regroup(out@, lane_words(read@.points), r1, whole);
    }
    push_lanes(&mut out, &read.points);
    proof {
        regroup(out@, int_words(read@.face_vertex_counts), r2, whole);
    }
    push_ints(&mut out, &read.face_vertex_counts);
    proof {
        regroup(out@, int_words(read@.face_vertex_indices), r3, whole);
    }
    push_ints(&mut out, &read.face_vertex_indices);
    proof {
        regroup(out@, primvar_words(read@.normals), r4, whole);
    }
    push_primvar(&mut out, &read.normals);
    proof {
        regroup(out@, primvar_words(read@.uvs), r5, whole);
    }
    push_primvar(&mut out, &read.uvs);
    let ghost before = out@;
    out.push(
        match read.orientation {
            Orientation::RightHanded => 0,
            Orientation::LeftHanded => 1,
        },
    );
    assert(out@ =~= before + seq![orientation_tag(read@.orientation)]);
    proof {
        regroup(before, seq![orientation_tag(read@.orientation)], r6, whole);
    }
    proof {
        regroup(out@, primvar_words(read@.display_color), r7, whole);
    }
    push_primvar(&mut out, &read.display_color);
    push_primvar(&mut out, &read.display_opacity);
    out
}

/// The hash of what identifies a mesh conversion, computed before the
/// conversion so that equal inputs share one.
pub fn usd_mesh_signature(read: &MeshInputs) -> (r: u64)
    ensures
        hashes_to(""@, mesh_words(read@), r),
{
    fixed_hash("", &usd_mesh_words(read))
}

/// Three float lanes.
#[derive(Debug, Clone, Copy, PartialEq, Eq, Structural)]
pub struct Lanes3 {
    pub x: u32,
    pub y: u32,
    pub z: u32,
}

/// A texture coordinate transform, in float lanes.
#[derive(Debug, Clone, Copy, PartialEq, Eq, Structural)]
pub struct UvTransform {
    pub translation_x: u32,
    pub translation_y: u32,
    pub scale_x: u32,
    pub scale_y: u32,
    pub rotation_deg: u32,
}

/// What a preview surface authors, in float lanes.
#[derive(Debug)]
pub struct ReadPreviewMaterial {
    pub diffuse_color: Option<Lanes3>,
    pub opacity: Option<u32>,
    pub opacity_threshold: Option<u32>,
    pub roughness: Option<u32>,
    pub metallic: Option<u32>,
    pub emissive_color: Option<Lanes3>,
    pub ior: Option<u32>,
    pub diffuse_texture: Option<String>,
    pub normal_texture: Option<String>,
    pub roughness_texture: Option<String>,
    pub metallic_texture: Option<String>,
    pub opacity_texture: Option<String>,
    pub emissive_texture: Option<String>,
    pub occlusion_texture: Option<String>,
    pub uv_transform: Option<UvTransform>,
}

/// What a preview surface authors, with texts as character sequences.
#[verifier::ext_equal]
pub struct PreviewView {
    pub diffuse_color: Option<Lanes3>,
    pub opacity: Option<u32>,
    pub opacity_threshold: Option<u32>,
    pub roughness: Option<u32>,
    pub metallic: Option<u32>,
    pub emissive_color: Option<Lanes3>,
    pub ior: Option<u32>,
    pub diffuse_texture: Option<Seq<char>>,
    pub normal_texture: Option<Seq<char>>,
    pub roughness_texture: Option<Seq<char>>,
    pub metallic_texture: Option<Seq<char>>,
    pub opacity_texture: Option<Seq<char>>,
    pub emissive_texture: Option<Seq<char>>,
    pub occlusion_texture: Option<Seq<char>>,
    pub uv_transform: Option<UvTransform>,
}

impl View for ReadPreviewMaterial {
    type V = PreviewView;

    open spec fn view(&self) -> PreviewView {
        PreviewView {
            diffuse_color: self.diffuse_color,
            opacity: self.opacity,
            opacity_threshold: self.opacity_threshold,
            roughness: self.roughness,
            metallic: self.metallic,
            emissive_color: self.emissive_color,
            ior: self.ior,
            diffuse_texture: opt_view(self.diffuse_texture),
            normal_texture: opt_view(self.normal_texture),
            roughness_texture: opt_view(self.roughness_texture),
            metallic_texture: opt_view(self.metallic_texture),
            opacity_texture: opt_view(self.opacity_texture),
            emissive_texture: opt_view(self.emissive_texture),
            occlusion_texture: opt_view(self.occlusion_texture),
            uv_transform: self.uv_transform,
        }
    }
}

/// The lanes of an optional float: none or one.
pub open spec fn opt_lane(value: Option<u32>) -> Seq<u32> {
    match value {
        None => Seq::empty(),
        Some(x) => seq![x],
    }
}

/// The lanes of an optional colour: none or three.
pub open spec fn opt_lanes3(value: Option<Lanes3>) -> Seq<u32> {
    match value {
        None => Seq::empty(),
        Some(v) => seq![v.x, v.y, v.z],
    }
}

/// The lanes of an optional transform: none or five.
pub open spec fn opt_uv(value: Option<UvTransform>) -> Seq<u32> {
    match value {
        None => Seq::empty(),
        Some(t) => seq![t.translation_x, t.translation_y, t.scale_x, t.scale_y, t.rotation_deg],
    }
}

/// Zero without a text; one and the text with one.
pub open spec fn opt_text_words(value: Option<Seq<char>>) -> Seq<i128> {
    match value {
        None => seq![0i128],
        Some(t) => seq![1i128] + text_words(t),
    }
}

/// A number for each truth value.
pub open spec fn bool_tag(value: bool) -> i128 {
    if value {
        1
    } else {
        0
    }
}

/// The numbers that identify a preview material.
pub open spec fn preview_words(m: PreviewView, has_asset_server: bool) -> Seq<i128> {
    seq![bool_tag(has_asset_server)] + (lane_words(opt_lanes3(m.diffuse_color)) + (lane_words(
        opt_lane(m.opacity),
    ) + (lane_words(opt_lane(m.opacity_threshold)) + (lane_words(opt_lane(m.roughness)) + (
    lane_words(opt_lane(m.metallic)) + (lane_words(opt_lanes3(m.emissive_color)) + (lane_words(
        opt_lane(m.ior),
    ) + (opt_text_words(m.diffuse_texture) + (opt_text_words(m.normal_texture) + (opt_text_words(
        m.roughness_texture,
    ) + (opt_text_words(m.metallic_texture) + (opt_text_words(m.opacity_texture) + (opt_text_words(
        m.emissive_texture,
    ) + (opt_text_words(m.occlusion_texture) + lane_words(opt_uv(m.uv_transform))))))))))))))))
}

fn push_opt_lane(out: &mut Vec<i128>, value: Option<u32>)
    ensures
        final(out)@ == old(out)@ + lane_words(opt_lane(value)),
{
    let mut lanes: Vec<u32> = Vec::new();
    if let Some(x) = value {
        lanes.push(x);
    }
    assert(lanes@ =~= opt_lane(value));
    push_lanes(out, &lanes);
}

fn push_opt_lanes3(out: &mut Vec<i128>, value: Option<Lanes3>)
    ensures
        final(out)@ == old(out)@ + lane_words(opt_lanes3(value)),
{
    let mut lanes: Vec<u32> = Vec::new();
    if let Some(v) = value {
        lanes.push(v.x);
        lanes.push(v.y);
        lanes.push(v.z);
    }
    assert(lanes@ =~= opt_lanes3(value));
    push_lanes(out, &lanes);
}

fn push_opt_text(out: &mut Vec<i128>, value: &Option<String>)
    ensures
        final(out)@ == old(out)@ + opt_text_words(opt_view(*value)),
{
    match value {
        None => out.push(0),
        Some(text) => {
            out.push(1);
            push_text(out, text.as_str());
        },
    }
    assert(out@ =~= old(out)@ + opt_text_words(opt_view(*value)));
}

/// The numbers that identify a preview material.
pub fn preview_material_words(read: &ReadPreviewMaterial, has_asset_server: bool) -> (r: Vec<i128>)
    ensures
        r@ == preview_words(read@, has_asset_server),
{
    let mut out: Vec<i128> = Vec::new();
    let ghost whole = preview_words(read@, has_asset_server);
    let ghost r15 = lane_words(opt_uv(read@.uv_transform));
    let ghost r14 = opt_text_words(read@.occlusion_texture) + r15;
    let ghost r13 = opt_text_words(read@.emissive_texture) + r14;
    let ghost r12 = opt_text_words(read@.opacity_texture) + r13;
    let ghost r11 = opt_text_words(read@.metallic_texture) + r12;
    let ghost r10 = opt_text_words(read@.roughness_texture) + r11;
    let ghost r9 = opt_text_words(read@.normal_texture) + r10;
    let ghost r8 = opt_text_words(read@.diffuse_texture) + r9;
    let ghost r7 = lane_words(opt_lane(read@.ior)) + r8;
    let ghost r6 = lane_words(opt_lanes3(read@.emissive_color)) + r7;
    let ghost r5 = lane_words(opt_lane(read@.metallic)) + r6;
    let ghost r4 = lane_words(opt_lane(read@.roughness)) + r5;
    let ghost r3 = lane_words(opt_lane(read@.opacity_threshold)) + r4;
    let ghost r2 = lane_words(opt_lane(read@.opacity)) + r3;
    let ghost r1 = lane_words(opt_lanes3(read@.diffuse_color)) + r2;
    assert(whole == seq![bool_tag(has_asset_server)] + r1);
    assert(out@ + whole =~= whole);
    let ghost before = out@;
    out.push(
        if has_asset_server {
            1
        } else {
            0
        },
    );
    assert(out@ =~= before + seq![bool_tag(has_asset_server)]);
    proof {
        regroup(before, seq![bool_tag(has_asset_server)], r1, whole);
    }
    proof {
        regroup(out@, lane_words(opt_lanes3(read@.diffuse_color)), r2, whole);
    }
    push_opt_lanes3(&mut out, read.diffuse_color);
    proof {
        regroup(out@, lane_words(opt_lane(read@.opacity)), r3, whole);
    }
    push_opt_lane(&mut out, read.opacity);
    proof {
        regroup(out@, lane_words(opt_lane(read@.opacity_threshold)), r4, whole);
    }
    push_opt_lane(&mut out, read.opacity_threshold);
    proof {
        regroup(out@, lane_words(opt_lane(read@.roughness)), r5, whole);
    }
    push_opt_lane(&mut out, read.roughness);
    proof {
        regroup(out@, lane_words(opt_lane(read@.metallic)), r6, whole);
    }
    push_opt_lane(&mut out, read.metallic);
    proof {
        regroup(out@, lane_words(opt_lanes3(read@.emissive_color)), r7, whole);
    }
    push_opt_lanes3(&mut out, read.emissive_color);
    proof {
        regroup(out@, lane_words(opt_lane(read@.ior)), r8, whole);
    }
    push_opt_lane(&mut out, read.ior);
    proof {
        regroup(out@, opt_text_words(read@.diffuse_texture), r9, whole);
    }
    push_opt_text(&mut out, &read.diffuse_texture);
    proof {
        regroup(out@, opt_text_words(read@.normal_texture), r10, whole);
    }
    push_opt_text(&mut out, &read.normal_texture);
    proof {
        regroup(out@, opt_text_words(read@.roughness_texture), r11, whole);
    }
    push_opt_text(&mut out, &read.roughness_texture);
    proof {
        regroup(out@, opt_text_words(read@.metallic_texture), r12, whole);
    }
    push_opt_text(&mut out, &read.metallic_texture);
    proof {
        regroup(out@, opt_text_words(read@.opacity_texture), r13, whole);
    }
    push_opt_text(&mut out, &read.opacity_texture);
    proof {
        regroup(out@, opt_text_words(read@.emissive_texture), r14, whole);
    }
    push_opt_text(&mut out, &read.emissive_texture);
    proof {
        regroup(out@, opt_text_words(read@.occlusion_texture), r15, whole);
    }
    push_opt_text(&mut out, &read.occlusion_texture);
    let mut lanes: Vec<u32> = Vec::new();
    if let Some(t) = read.uv_transform {
        lanes.push(t.translation_x);
        lanes.push(t.translation_y);
        lanes.push(t.scale_x);
        lanes.push(t.scale_y);
        lanes.push(t.rotation_deg);
    }
    assert(lanes@ =~= opt_uv(read.uv_transform));
    push_lanes(&mut out, &lanes);
    out
}

/// The hash of what identifies a preview material.
pub fn preview_material_signature(read: &ReadPreviewMaterial, has_asset_server: bool) -> (r: u64)
    ensures
        hashes_to(""@, preview_words(read@, has_asset_server), r),
{
    fixed_hash("", &preview_material_words(read, has_asset_server))
}

proof fn opt_lanes_end(a: Option<u32>, r: Seq<i128>, b: Option<u32>, s: Seq<i128>)
    requires
        lane_words(opt_lane(a)) + r == lane_words(opt_lane(b)) + s,
    ensures
        a == b,
        r == s,
{
    lanes_end(opt_lane(a), r, opt_lane(b), s);
    assert(opt_lane(a).len() == opt_lane(b).len());
    if a is Some {
        assert(opt_lane(a)[0] == opt_lane(b)[0]);
    }
}

proof fn opt_lanes3_end(a: Option<Lanes3>, r: Seq<i128>, b: Option<Lanes3>, s: Seq<i128>)
    requires
        lane_words(opt_lanes3(a)) + r == lane_words(opt_lanes3(b)) + s,
    ensures
        a == b,
        r == s,
{
    lanes_end(opt_lanes3(a), r, opt_lanes3(b), s);
    assert(opt_lanes3(a).len() == opt_lanes3(b).len());
    if a is Some {
        assert(opt_lanes3(a)[0] == opt_lanes3(b)[0]);
        assert(opt_lanes3(a)[1] == opt_lanes3(b)[1]);
        assert(opt_lanes3(a)[2] == opt_lanes3(b)[2]);
    }
}

/// The text fits into memory.
pub open spec fn text_fits(value: Option<Seq<char>>) -> bool {
    value matches Some(t) ==> t.len() <= usize::MAX
}

proof fn opt_texts_end(a: Option<Seq<char>>, r: Seq<i128>, b: Option<Seq<char>>, s: Seq<i128>)
    requires
        opt_text_words(a) + r == opt_text_words(b) + s,
        text_fits(a),
        text_fits(b),
    ensures
        a == b,
        r == s,
{
    match (a, b) {
        (Some(t), Some(u)) => {
            assert(opt_text_words(a) + r =~= seq![1i128] + (text_words(t) + r));
            assert(opt_text_words(b) + s =~= seq![1i128] + (text_words(u) + s));
            heads_end(1, text_words(t) + r, 1, text_words(u) + s);
            texts_end(t, r, u, s);
        },
        (None, None) => {
            heads_end(0, r, 0, s);
        },
        _ => {
            assert((opt_text_words(a) + r)[0] == opt_text_words(a)[0]);
            assert((opt_text_words(b) + s)[0] == opt_text_words(b)[0]);
        },
    }
}

/// The texts of the material fit into memory.
pub open spec fn preview_fits(m: PreviewView) -> bool {
    &&& text_fits(m.diffuse_texture)
    &&& text_fits(m.normal_texture)
    &&& text_fits(m.roughness_texture)
    &&& text_fits(m.metallic_texture)
    &&& text_fits(m.opacity_texture)
    &&& text_fits(m.emissive_texture)
    &&& text_fits(m.occlusion_texture)
}

/// Two preview materials with the same numbers are the same material on the
/// same kind of host.
pub proof fn preview_words_tell_materials_apart(a: PreviewView, p: bool, b: PreviewView, q: bool)
    requires
        preview_fits(a),
        preview_fits(b),
        preview_words(a, p) == preview_words(b, q),
    ensures
        a == b,
        p == q,
{
    let a15 = lane_words(opt_uv(a.uv_transform));
    let b15 = lane_words(opt_uv(b.uv_transform));
    let a14 = opt_text_words(a.occlusion_texture) + a15;
    let b14 = opt_text_words(b.occlusion_texture) + b15;
    let a13 = opt_text_words(a.emissive_texture) + a14;
    let b13 = opt_text_words(b.emissive_texture) + b14;
    let a12 = opt_text_words(a.opacity_texture) + a13;
    let b12 = opt_text_words(b.opacity_texture) + b13;
    let a11 = opt_text_words(a.metallic_texture) + a12;
    let b11 = opt_text_words(b.metallic_texture) + b12;
    let a10 = opt_text_words(a.roughness_texture) + a11;
    let b10 = opt_text_words(b.roughness_texture) + b11;
    let a9 = opt_text_words(a.normal_texture) + a10;
    let b9 = opt_text_words(b.normal_texture) + b10;
    let a8 = opt_text_words(a.diffuse_texture) + a9;
    let b8 = opt_text_words(b.diffuse_texture) + b9;
    let a7 = lane_words(opt_lane(a.ior)) + a8;
    let b7 = lane_words(opt_lane(b.ior)) + b8;
    let a6 = lane_words(opt_lanes3(a.emissive_color)) + a7;
    let b6 = lane_words(opt_lanes3(b.emissive_color)) + b7;
    let a5 = lane_words(opt_lane(a.metallic)) + a6;
    let b5 = lane_words(opt_lane(b.metallic)) + b6;
    let a4 = lane_words(opt_lane(a.roughness)) + a5;
    let b4 = lane_words(opt_lane(b.roughness)) + b5;
    let a3 = lane_words(opt_lane(a.opacity_threshold)) + a4;
    let b3 = lane_words(opt_lane(b.opacity_threshold)) + b4;
    let a2 = lane_words(opt_lane(a.opacity)) + a3;
    let b2 = lane_words(opt_lane(b.opacity)) + b3;
    let a1 = lane_words(opt_lanes3(a.diffuse_color)) + a2;
    let b1 = lane_words(opt_lanes3(b.diffuse_color)) + b2;
    heads_end(bool_tag(p), a1, bool_tag(q), b1);
    opt_lanes3_end(a.diffuse_color, a2, b.diffuse_color, b2);
    opt_lanes_end(a.opacity, a3, b.opacity, b3);
    opt_lanes_end(a.opacity_threshold, a4, b.opacity_threshold, b4);
    opt_lanes_end(a.roughness, a5, b.roughness, b5);
    opt_lanes_end(a.metallic, a6, b.metallic, b6);
    opt_lanes3_end(a.emissive_color, a7, b.emissive_color, b7);
    opt_lanes_end(a.ior, a8, b.ior, b8);
    opt_texts_end(a.diffuse_texture, a9, b.diffuse_texture, b9);
    opt_texts_end(a.normal_texture, a10, b.normal_texture, b10);
    opt_texts_end(a.roughness_texture, a11, b.roughness_texture, b11);
    opt_texts_end(a.metallic_texture, a12, b.metallic_texture, b12);
    opt_texts_end(a.opacity_texture, a13, b.opacity_texture, b13);
    opt_texts_end(a.emissive_texture, a14, b.emissive_texture, b14);
    opt_texts_end(a.occlusion_texture, a15, b.occlusion_texture, b15);
    let none = Seq::<i128>::empty();
    assert(a15 + none =~= a15);
    assert(b15 + none =~= b15);
    lanes_end(opt_uv(a.uv_transform), none, opt_uv(b.uv_transform), none);
    let u = opt_uv(a.uv_transform);
    let v = opt_uv(b.uv_transform);
    assert(u.len() == v.len());
    if a.uv_transform is Some {
        assert(u[0] == v[0] && u[1] == v[1] && u[2] == v[2] && u[3] == v[3] && u[4] == v[4]);
    }
}

/// The index list of a built mesh.
#[derive(Debug)]
pub enum MeshIndices {
    Absent,
    U16(Vec<u16>),
    U32(Vec<u32>),
}

/// One vertex attribute of a built mesh: float lanes of two, three or four per
/// vertex, or only a length for any other format.
#[derive(Debug)]
pub enum AttributeLanes {
    Absent,
    Float32x2(Vec<u32>),
    Float32x3(Vec<u32>),
    Float32x4(Vec<u32>),
    OtherOfLength(usize),
}

/// The parts of a built mesh that decide how it looks.
#[derive(Debug)]
pub struct BuiltMesh {
    pub topology: u8,
    pub indices: MeshIndices,
    pub positions: AttributeLanes,
    pub normals: AttributeLanes,
    pub uvs: AttributeLanes,
    pub colors: AttributeLanes,
}

/// The kind of the index list, then the indices.
pub open spec fn index_words(indices: MeshIndices) -> Seq<i128> {
    match indices {
        MeshIndices::U16(v) => seq![0i128] + lane_words(v@.map_values(|x: u16| x as u32)),
        MeshIndices::U32(v) => seq![1i128] + lane_words(v@),
        MeshIndices::Absent => seq![2i128],
    }
}

/// The kind of the attribute, then its lanes or its length.
pub open spec fn attribute_words(lanes: AttributeLanes) -> Seq<i128> {
    match lanes {
        AttributeLanes::Absent => seq![0i128],
        AttributeLanes::Float32x2(v) => seq![2i128] + lane_words(v@),
        AttributeLanes::Float32x3(v) => seq![3i128] + lane_words(v@),
        AttributeLanes::Float32x4(v) => seq![4i128] + lane_words(v@),
        AttributeLanes::OtherOfLength(n) => seq![1i128] + seq![n as i128],
    }
}

/// The numbers that identify a built mesh.
pub open spec fn built_mesh_words(mesh: BuiltMesh) -> Seq<i128> {
    seq![mesh.topology as i128] + (index_words(mesh.indices) + (attribute_words(mesh.positions) + (
    attribute_words(mesh.normals) + (attribute_words(mesh.uvs) + attribute_words(mesh.colors)))))
}

fn push_attribute(out: &mut Vec<i128>, lanes: &AttributeLanes)
    ensures
        final(out)@ == old(out)@ + attribute_words(*lanes),
{
    match lanes {
        AttributeLanes::Absent => out.push(0),
        AttributeLanes::Float32x2(v) => {
            out.push(2);
            push_lanes(out, v);
        },
        AttributeLanes::Float32x3(v) => {
            out.push(3);
            push_lanes(out, v);
        },
        AttributeLanes::Float32x4(v) => {
            out.push(4);
            push_lanes(out, v);
        },
        AttributeLanes::OtherOfLength(n) => {
            out.push(1);
            out.push(*n as i128);
        },
    }
    assert(out@ =~= old(out)@ + attribute_words(*lanes));
}

fn push_indices(out: &mut Vec<i128>, indices: &MeshIndices)
    ensures
        final(out)@ == old(out)@ + index_words(*indices),
{
    match indices {
        MeshIndices::U16(v) => {
            out.push(0);
            let mut wide: Vec<u32> = Vec::new();
            for i in 0..v.len()
                invariant
                    wide@ == v@.take(i as int).map_values(|x: u16| x as u32),
            {
                wide.push(v[i] as u32);
                assert(wide@ =~= v@.take(i as int + 1).map_values(|x: u16| x as u32));
            }
            assert(v@.take(v@.len() as int) =~= v@);
            push_lanes(out, &wide);
        },
        MeshIndices::U32(v) => {
            out.push(1);
            push_lanes(out, v);
        },
        MeshIndices::Absent => out.push(2),
    }
    assert(out@ =~= old(out)@ + index_words(*indices));
}

proof fn parts_in_order(
    a: Seq<i128>,
    b: Seq<i128>,
    c: Seq<i128>,
    d: Seq<i128>,
    e: Seq<i128>,
    f: Seq<i128>,
)
    ensures
        a + b + c + d + e + f == a + (b + (c + (d + (e + f)))),
{
    assert(a + b + c + d + e + f =~= a + (b + (c + (d + (e + f)))));
}

/// The numbers that identify a built mesh: topology, indices, and every
/// attribute that the mesh builders emit.
pub fn mesh_content_words(mesh: &BuiltMesh) -> (r: Vec<i128>)
    ensures
        r@ == built_mesh_words(*mesh),
{
    let mut out: Vec<i128> = vec![mesh.topology as i128];
    assert(out@ =~= seq![mesh.topology as i128]);
    push_indices(&mut out, &mesh.indices);
    push_attribute(&mut out, &mesh.positions);
    push_attribute(&mut out, &mesh.normals);
    push_attribute(&mut out, &mesh.uvs);
    push_attribute(&mut out, &mesh.colors);
    proof {
        parts_in_order(
            seq![mesh.topology as i128],
            index_words(mesh.indices),
            attribute_words(mesh.positions),
            attribute_words(mesh.normals),
            attribute_words(mesh.uvs),
            attribute_words(mesh.colors),
        );
    }
    out
}

/// The hash of what identifies a built mesh.
pub fn mesh_signature(mesh: &BuiltMesh) -> (r: u64)
    ensures
        hashes_to(""@, built_mesh_words(*mesh), r),
{
    fixed_hash("", &mesh_content_words(mesh))
}

/// The two attributes are of one kind with the same lanes.
pub open spec fn same_attribute(a: AttributeLanes, b: AttributeLanes) -> bool {
    match (a, b) {
        (AttributeLanes::Absent, AttributeLanes::Absent) => true,
        (AttributeLanes::Float32x2(v), AttributeLanes::Float32x2(w)) => v@ == w@,
        (AttributeLanes::Float32x3(v), AttributeLanes::Float32x3(w)) => v@ == w@,
        (AttributeLanes::Float32x4(v), AttributeLanes::Float32x4(w)) => v@ == w@,
        (AttributeLanes::OtherOfLength(m), AttributeLanes::OtherOfLength(n)) => m == n,
        _ => false,
    }
}

/// The two index lists are of one kind with the same indices.
pub open spec fn same_indices(a: MeshIndices, b: MeshIndices) -> bool {
    match (a, b) {
        (MeshIndices::Absent, MeshIndices::Absent) => true,
        (MeshIndices::U16(v), MeshIndices::U16(w)) => v@ == w@,
        (MeshIndices::U32(v), MeshIndices::U32(w)) => v@ == w@,
        _ => false,
    }
}

/// The lanes of the attribute fit into memory.
pub open spec fn attribute_fits(a: AttributeLanes) -> bool {
    match a {
        AttributeLanes::Float32x2(v) => v@.len() <= usize::MAX,
        AttributeLanes::Float32x3(v) => v@.len() <= usize::MAX,
        AttributeLanes::Float32x4(v) => v@.len() <= usize::MAX,
        _ => true,
    }
}

/// The parts of the mesh fit into memory.
pub open spec fn built_mesh_fits(mesh: BuiltMesh) -> bool {
    &&& attribute_fits(mesh.positions)
    &&& attribute_fits(mesh.normals)
    &&& attribute_fits(mesh.uvs)
    &&& attribute_fits(mesh.colors)
    &&& indices_fit(mesh.indices)
}

proof fn tagged_lanes_end(tag: i128, a: Seq<u32>, r: Seq<i128>, b: Seq<u32>, s: Seq<i128>)
    requires
        (seq![tag] + lane_words(a)) + r == (seq![tag] + lane_words(b)) + s,
        a.len() <= usize::MAX,
        b.len() <= usize::MAX,
    ensures
        a == b,
        r == s,
{
    assert((seq![tag] + lane_words(a)) + r =~= seq![tag] + (lane_words(a) + r));
    assert((seq![tag] + lane_words(b)) + s =~= seq![tag] + (lane_words(b) + s));
    heads_end(tag, lane_words(a) + r, tag, lane_words(b) + s);
    lanes_end(a, r, b, s);
}

proof fn attributes_end(a: AttributeLanes, r: Seq<i128>, b: AttributeLanes, s: Seq<i128>)
    requires
        attribute_words(a) + r == attribute_words(b) + s,
        attribute_fits(a),
        attribute_fits(b),
    ensures
        same_attribute(a, b),
        r == s,
{
    match (a, b) {
        (AttributeLanes::Float32x2(v), AttributeLanes::Float32x2(w)) => {
            tagged_lanes_end(2, v@, r, w@, s);
        },
        (AttributeLanes::Float32x3(v), AttributeLanes::Float32x3(w)) => {
            tagged_lanes_end(3, v@, r, w@, s);
        },
        (AttributeLanes::Float32x4(v), AttributeLanes::Float32x4(w)) => {
            tagged_lanes_end(4, v@, r, w@, s);
        },
        (AttributeLanes::OtherOfLength(m), AttributeLanes::OtherOfLength(n)) => {
            assert(attribute_words(a) + r =~= seq![1i128] + (seq![m as i128] + r));
            assert(attribute_words(b) + s =~= seq![1i128] + (seq![n as i128] + s));
            heads_end(1, seq![m as i128] + r, 1, seq![n as i128] + s);
            heads_end(m as i128, r, n as i128, s);
        },
        (AttributeLanes::Absent, AttributeLanes::Absent) => {
            heads_end(0, r, 0, s);
        },
        _ => {
            assert((attribute_words(a) + r)[0] == attribute_words(a)[0]);
            assert((attribute_words(b) + s)[0] == attribute_words(b)[0]);
        },
    }
}

/// Two built meshes with the same numbers have the same topology, indices,
/// positions, normals, texture coordinates and colours.
pub proof fn built_mesh_words_tell_meshes_apart(a: BuiltMesh, b: BuiltMesh)
    requires
        built_mesh_fits(a),
        built_mesh_fits(b),
        built_mesh_words(a) == built_mesh_words(b),
    ensures
        a.topology == b.topology,
        same_indices(a.indices, b.indices),
        same_attribute(a.positions, b.positions),
        same_attribute(a.normals, b.normals),
        same_attribute(a.uvs, b.uvs),
        same_attribute(a.colors, b.colors),
{
    let none = Seq::<i128>::empty();
    let a4 = attribute_words(a.colors);
    let b4 = attribute_words(b.colors);
    let a3 = attribute_words(a.uvs) + a4;
    let b3 = attribute_words(b.uvs) + b4;
    let a2 = attribute_words(a.normals) + a3;
    let b2 = attribute_words(b.normals) + b3;
    let a1 = attribute_words(a.positions) + a2;
    let b1 = attribute_words(b.positions) + b2;
    heads_end(
        a.topology as i128,
        index_words(a.indices) + a1,
        b.topology as i128,
        index_words(b.indices) + b1,
    );
    index_lists_end(a.indices, a1, b.indices, b1);
    attributes_end(a.positions, a2, b.positions, b2);
    attributes_end(a.normals, a3, b.normals, b3);
    attributes_end(a.uvs, a4, b.uvs, b4);
    assert(a4 + none =~= a4);
    assert(b4 + none =~= b4);
    attributes_end(a.colors, none, b.colors, none);
}

/// The indices fit into memory.
pub open spec fn indices_fit(indices: MeshIndices) -> bool {
    match indices {
        MeshIndices::U16(v) => v@.len() <= usize::MAX,
        MeshIndices::U32(v) => v@.len() <= usize::MAX,
        MeshIndices::Absent => true,
    }
}

proof fn index_lists_end(a: MeshIndices, r: Seq<i128>, b: MeshIndices, s: Seq<i128>)
    requires
        index_words(a) + r == index_words(b) + s,
        indices_fit(a),
        indices_fit(b),
    ensures
        same_indices(a, b),
        r == s,
{
    match (a, b) {
        (MeshIndices::U16(v), MeshIndices::U16(w)) => {
            let x = v@.map_values(|x: u16| x as u32);
            let y = w@.map_values(|x: u16| x as u32);
            tagged_lanes_end(0, x, r, y, s);
            assert(x.len() == y.len());
            assert forall|i: int| 0 <= i < v@.len() implies v@[i] == w@[i] by {
                assert(x[i] == y[i]);
            }
            assert(v@ =~= w@);
        },
        (MeshIndices::U32(v), MeshIndices::U32(w)) => {
            tagged_lanes_end(1, v@, r, w@, s);
        },
        (MeshIndices::Absent, MeshIndices::Absent) => {
            heads_end(2, r, 2, s);
        },
        _ => {
            assert((index_words(a) + r)[0] == index_words(a)[0]);
            assert((index_words(b) + s)[0] == index_words(b)[0]);
        },
    }
}

} // verus!
