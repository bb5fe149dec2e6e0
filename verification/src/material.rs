//! UsdPreviewSurface to the settings of a standard PBR material.
//!
//! Diffuse colours are linear. Colour space follows the channel: diffuse and
//! emissive textures are sRGB, all others linear. `opacity` below one or a
//! textured opacity blends; an opacity threshold above zero masks instead.

use crate::float::{below32, less32, ONE};
use crate::route::signature::{Lanes3, ReadPreviewMaterial};
use crate::text::{cat, copy, copy_opt, opt_view, str_eq};
use vstd::prelude::*;

verus! {

/// The base colour factor.
#[derive(Debug, Clone, Copy, PartialEq, Eq, Structural)]
pub enum BaseColor {
    /// The linear grey of an unauthored surface.
    Grey,
    /// White, so that a texture passes through unchanged.
    White,
    /// The authored linear colour, in float lanes.
    Linear(Lanes3),
}

/// How coverage is drawn.
#[derive(Debug, Clone, Copy, PartialEq, Eq, Structural)]
pub enum AlphaMode {
    Opaque,
    /// Cut off below the threshold, a float lane.
    Mask(u32),
    Blend,
}

/// What the combined metallic and roughness slot samples.
#[derive(Debug)]
pub enum PackedTexture {
    Absent,
    /// One image for both.
    Single(String),
    /// Two images that are packed into one.
    Packed { roughness: String, metallic: String },
}

/// The settings of a standard material. Numbers are float lanes; `alpha` is
/// the authored opacity of a blended surface. Where `emissive` or `ior` is
/// absent, the renderer's default stays.
#[derive(Debug)]
pub struct StandardSettings {
    pub base_color: BaseColor,
    pub alpha: Option<u32>,
    pub roughness: u32,
    pub metallic: u32,
    pub emissive: Option<Lanes3>,
    pub ior: Option<u32>,
    pub base_color_texture: Option<String>,
    pub normal_map_texture: Option<String>,
    pub occlusion_texture: Option<String>,
    pub emissive_texture: Option<String>,
    pub metallic_roughness_texture: PackedTexture,
    pub alpha_mode: AlphaMode,
}

/// A packed texture slot, with its paths as character sequences.
#[verifier::ext_equal]
pub enum PackedView {
    Absent,
    Single(Seq<char>),
    Packed { roughness: Seq<char>, metallic: Seq<char> },
}

impl View for PackedTexture {
    type V = PackedView;

    open spec fn view(&self) -> PackedView {
        match *self {
            PackedTexture::Absent => PackedView::Absent,
            PackedTexture::Single(p) => PackedView::Single(p@),
            PackedTexture::Packed { roughness, metallic } => PackedView::Packed {
                roughness: roughness@,
                metallic: metallic@,
            },
        }
    }
}

/// The base colour: authored, else white under a texture, else grey.
pub open spec fn base_color_of(read: ReadPreviewMaterial) -> BaseColor {
    match read.diffuse_color {
        Some(c) => BaseColor::Linear(c),
        None => if read.diffuse_texture is Some {
            BaseColor::White
        } else {
            BaseColor::Grey
        },
    }
}

/// An authored lane, or `1.0`.
pub open spec fn lane_or_one(value: Option<u32>) -> u32 {
    match value {
        Some(x) => x,
        None => ONE,
    }
}

/// What the combined slot samples: both images packed where they differ, else
/// the one that is authored.
pub open spec fn packed_of(metallic: Option<Seq<char>>, roughness: Option<Seq<char>>) -> PackedView {
    match (metallic, roughness) {
        (Some(m), Some(r)) => if m != r {
            PackedView::Packed { roughness: r, metallic: m }
        } else {
            PackedView::Single(m)
        },
        (Some(m), None) => PackedView::Single(m),
        (None, Some(r)) => PackedView::Single(r),
        (None, None) => PackedView::Absent,
    }
}

/// How coverage is drawn: a threshold above zero masks, else an opacity below
/// one or an opacity texture blends.
pub open spec fn alpha_mode_of(read: ReadPreviewMaterial) -> AlphaMode {
    if read.opacity_threshold is Some && below32(0, read.opacity_threshold->0) {
        AlphaMode::Mask(read.opacity_threshold->0)
    } else if (read.opacity is Some && below32(read.opacity->0, ONE)) || read.opacity_texture is Some {
        AlphaMode::Blend
    } else {
        AlphaMode::Opaque
    }
}

/// The settings of a standard material for a decoded preview surface.
pub fn standard_material_from_usd(read: &ReadPreviewMaterial) -> (r: StandardSettings)
    ensures
        r.base_color == base_color_of(*read),
        r.alpha == (if alpha_mode_of(*read) == AlphaMode::Blend {
            read.opacity
        } else {
            None
        }),
        r.roughness == lane_or_one(read.roughness),
        r.metallic == lane_or_one(read.metallic),
        read.roughness matches Some(x) ==> r.roughness == x,
        read.roughness is None ==> r.roughness == 0x3f80_0000u32,
        read.metallic matches Some(x) ==> r.metallic == x,
        read.metallic is None ==> r.metallic == 0x3f80_0000u32,
        read.diffuse_color matches Some(c) ==> r.base_color == BaseColor::Linear(c),
        read.diffuse_color is None && read.diffuse_texture is Some ==> r.base_color
            == BaseColor::White,
        read.diffuse_color is None && read.diffuse_texture is None ==> r.base_color
            == BaseColor::Grey,
        r.emissive == read.emissive_color,
        r.ior == read.ior,
        opt_view(r.base_color_texture) == read@.diffuse_texture,
        opt_view(r.normal_map_texture) == read@.normal_texture,
        opt_view(r.occlusion_texture) == read@.occlusion_texture,
        opt_view(r.emissive_texture) == read@.emissive_texture,
        r.metallic_roughness_texture@ == packed_of(read@.metallic_texture, read@.roughness_texture),
        r.alpha_mode == alpha_mode_of(*read),
        ({
            let masks = read.opacity_threshold is Some && below32(0, read.opacity_threshold->0);
            let fades = (read.opacity is Some && below32(read.opacity->0, 0x3f80_0000))
                || read.opacity_texture is Some;
            &&& masks ==> r.alpha_mode == AlphaMode::Mask(read.opacity_threshold->0)
            &&& !masks && fades ==> r.alpha_mode == AlphaMode::Blend
            &&& !masks && !fades ==> r.alpha_mode == AlphaMode::Opaque
        }),
        r.alpha_mode == AlphaMode::Blend ==> r.alpha == read.opacity,
        r.alpha_mode != AlphaMode::Blend ==> r.alpha is None,
        match (read.metallic_texture, read.roughness_texture) {
            (None, None) => r.metallic_roughness_texture is Absent,
            (Some(m), None) => r.metallic_roughness_texture matches PackedTexture::Single(one)
                && one@ == m@,
            (None, Some(rough)) => r.metallic_roughness_texture matches PackedTexture::Single(one)
                && one@ == rough@,
            (Some(m), Some(rough)) => if m@ == rough@ {
                r.metallic_roughness_texture matches PackedTexture::Single(one) && one@ == m@
            } else {
                r.metallic_roughness_texture matches PackedTexture::Packed { roughness, metallic }
                    && roughness@ == rough@ && metallic@ == m@
            },
        },
{
    let base_color = match read.diffuse_color {
        Some(c) => BaseColor::Linear(c),
        None => if read.diffuse_texture.is_some() {
            BaseColor::White
        } else {
            BaseColor::Grey
        },
    };
    let roughness: u32 = match read.roughness {
        Some(x) => x,
        None => ONE,
    };
    let metallic: u32 = match read.metallic {
        Some(x) => x,
        None => ONE,
    };
    let metallic_roughness_texture = match (&read.metallic_texture, &read.roughness_texture) {
        (Some(m), Some(r)) => if !str_eq(m.as_str(), r.as_str()) {
            PackedTexture::Packed { roughness: copy(r.as_str()), metallic: copy(m.as_str()) }
        } else {
            PackedTexture::Single(copy(m.as_str()))
        },
        (Some(m), None) => PackedTexture::Single(copy(m.as_str())),
        (None, Some(r)) => PackedTexture::Single(copy(r.as_str())),
        (None, None) => PackedTexture::Absent,
    };
    let masks = match read.opacity_threshold {
        Some(t) => less32(0, t),
        None => false,
    };
    let fades = match read.opacity {
        Some(o) => less32(o, ONE),
        None => false,
    };
    let alpha_mode = match read.opacity_threshold {
        Some(t) if masks => AlphaMode::Mask(t),
        _ => if fades || read.opacity_texture.is_some() {
            AlphaMode::Blend
        } else {
            AlphaMode::Opaque
        },
    };
    let alpha: Option<u32> = match alpha_mode {
        AlphaMode::Blend => read.opacity,
        _ => None,
    };
    StandardSettings {
        base_color,
        alpha,
        roughness,
        metallic,
        emissive: read.emissive_color,
        ior: read.ior,
        base_color_texture: copy_opt(&read.diffuse_texture),
        normal_map_texture: copy_opt(&read.normal_texture),
        occlusion_texture: copy_opt(&read.occlusion_texture),
        emissive_texture: copy_opt(&read.emissive_texture),
        metallic_roughness_texture,
        alpha_mode,
    }
}

/// The bytes of a pixel with these roughness and metallic values, in the order
/// red, green, blue, alpha.
pub open spec fn packed_pixel(roughness: u8, metallic: u8) -> Seq<u8> {
    seq![255u8, roughness, metallic, 255u8]
}

/// The first `count` packed pixels of two images of four bytes to a pixel, each
/// made of their red channels.
pub open spec fn packed_pixels(roughness: Seq<u8>, metallic: Seq<u8>, count: nat) -> Seq<u8>
    decreases count,
{
    if count == 0 {
        Seq::empty()
    } else {
        packed_pixels(roughness, metallic, (count - 1) as nat) + packed_pixel(
            roughness[4 * (count - 1)],
            metallic[4 * (count - 1)],
        )
    }
}

/// Packs a roughness and a metallic image of four bytes to a pixel into one:
/// roughness in green, metallic in blue. Images of different sizes are not
/// packed.
pub fn pack_metallic_roughness(roughness: &Vec<u8>, metallic: &Vec<u8>) -> (r: Option<Vec<u8>>)
    ensures
        r is Some <==> roughness@.len() == metallic@.len() && roughness@.len() % 4 == 0,
        r matches Some(pixels) ==> pixels@ == packed_pixels(
            roughness@,
            metallic@,
            roughness@.len() / 4,
        ),
        r matches Some(pixels) ==> pixels@.len() == roughness@.len(),
        r matches Some(pixels) ==> forall|k: int|
            0 <= k < pixels@.len() ==> #[trigger] pixels@[k] == (if k % 4 == 1 {
                roughness@[k - 1]
            } else if k % 4 == 2 {
                metallic@[k - 2]
            } else {
                255u8
            }),
{
    let total: usize = roughness.len();
    if total != metallic.len() || total % 4 != 0 {
        return None;
    }
    let mut out: Vec<u8> = Vec::new();
    let count: usize = total / 4;
    for i in 0..count
        invariant
            count == total / 4,
            total == roughness@.len(),
            total == metallic@.len(),
            out@ == packed_pixels(roughness@, metallic@, i as nat),
    {
        let ghost sofar = out@;
        let place: usize = 4 * i;
        out.push(255);
        out.push(roughness[place]);
        out.push(metallic[place]);
        out.push(255);
        assert(out@ =~= sofar + packed_pixel(roughness@[4 * i], metallic@[4 * i]));
    }
    proof {
        pixels_hold_both_channels(roughness@, metallic@, count as nat);
    }
    Some(out)
}

/// Every packed pixel holds the red channel of its pixel in the first image as
/// green and that of its pixel in the second image as blue, with red and alpha
/// at full.
pub proof fn pixels_hold_both_channels(roughness: Seq<u8>, metallic: Seq<u8>, count: nat)
    ensures
        packed_pixels(roughness, metallic, count).len() == 4 * count,
        forall|k: int|
            0 <= k < 4 * count ==> #[trigger] packed_pixels(roughness, metallic, count)[k] == (
            if k % 4 == 1 {
                roughness[k - 1]
            } else if k % 4 == 2 {
                metallic[k - 2]
            } else {
                255u8
            }),
    decreases count,
{
    if count > 0 {
        pixels_hold_both_channels(roughness, metallic, (count - 1) as nat);
        let rest = packed_pixels(roughness, metallic, (count - 1) as nat);
        assert forall|k: int| 0 <= k < 4 * count implies #[trigger] packed_pixels(
            roughness,
            metallic,
            count,
        )[k] == (if k % 4 == 1 {
            roughness[k - 1]
        } else if k % 4 == 2 {
            metallic[k - 2]
        } else {
            255u8
        }) by {
            if k < rest.len() {
                assert(packed_pixels(roughness, metallic, count)[k] == rest[k]);
            }
        }
    }
}

/// The factors of a surface are the authored ones: a base colour, a roughness
/// and a metallic value are kept wherever they are authored, and only an
/// unauthored factor is full.
pub proof fn authored_factors_are_kept(read: ReadPreviewMaterial)
    ensures
        read.roughness matches Some(x) ==> lane_or_one(read.roughness) == x,
        read.metallic matches Some(x) ==> lane_or_one(read.metallic) == x,
        lane_or_one(None) == 0x3f80_0000u32,
        read.diffuse_color matches Some(c) ==> base_color_of(read) == BaseColor::Linear(c),
        read.diffuse_color is None ==> (base_color_of(read) == BaseColor::White
            <==> read.diffuse_texture is Some),
        read.diffuse_color is None ==> (base_color_of(read) == BaseColor::Grey
            <==> read.diffuse_texture is None),
{
}

/// A threshold above zero masks, whatever the opacity is. Without one, a
/// surface blends where its opacity is textured or below one, and is opaque
/// only where it is neither.
pub proof fn coverage_follows_threshold_and_opacity(read: ReadPreviewMaterial)
    ensures
        (read.opacity_threshold matches Some(t) && below32(0, t)) ==> alpha_mode_of(read)
            == AlphaMode::Mask(read.opacity_threshold->0),
        alpha_mode_of(read) matches AlphaMode::Mask(t) ==> read.opacity_threshold == Some(t)
            && below32(0, t),
        read.opacity_threshold is None && read.opacity_texture is Some ==> alpha_mode_of(read)
            == AlphaMode::Blend,
        read.opacity_threshold is None && (read.opacity matches Some(o) && below32(o, 0x3f80_0000))
            ==> alpha_mode_of(read) == AlphaMode::Blend,
        alpha_mode_of(read) == AlphaMode::Opaque ==> read.opacity_texture is None && (
        read.opacity is None || !below32(read.opacity->0, 0x3f80_0000)),
{
}

/// Two different images are packed, each in its role; one image, or the same
/// image twice, is sampled as it is.
pub proof fn packed_slot_keeps_its_images(metallic: Seq<char>, roughness: Seq<char>)
    ensures
        metallic != roughness ==> packed_of(Some(metallic), Some(roughness))
            == (PackedView::Packed { roughness, metallic }),
        packed_of(Some(metallic), Some(metallic)) == PackedView::Single(metallic),
        packed_of(Some(metallic), None) == PackedView::Single(metallic),
        packed_of(None, Some(roughness)) == PackedView::Single(roughness),
        packed_of(None, None) == PackedView::Absent,
{
}

/// The settings of a surface without any shading: a light blue-grey of sRGB
/// 0.72, 0.72, 0.75, roughness 0.8, not metallic. Lanes are in the order red,
/// green, blue, roughness, metallic.
pub fn default_material() -> (r: (u32, u32, u32, u32, u32))
    ensures
        r == (0x3f38_51ecu32, 0x3f38_51ecu32, 0x3f40_0000u32, 0x3f4c_cccdu32, 0u32),
{
    (0x3f38_51ec, 0x3f38_51ec, 0x3f40_0000, 0x3f4c_cccd, 0)
}

/// The label of a material that is registered as a sub-asset.
pub fn material_label(prim_path: &str) -> (r: String)
    ensures
        r@ == "Material:"@ + prim_path@,
{
    cat("Material:", prim_path)
}

} // verus!
