//! Renderer-side resources of a compiled material: shader identities, sampler
//! settings, uniform and texture slots, and the texture bookkeeping.

use super::compiler::{texture_views, CompiledMaterialX, CompiledTexture};
use super::diagnostic::{error_view, DiagnosticCode, DiagnosticView, MaterialXDiagnostic};
use super::graph::{TextureView, MAX_TEXTURES, MAX_UNIFORMS};
use super::registry::MaterialXRegistry;
use super::value::{slot_views, zero_lane, Lane, Slot, SlotView};
use crate::completion::{left_over, published, take_completed};
use crate::fspath::{extension_of, file_extension};
use crate::hash::{fixed_hash, hashes_to};
use crate::text::{cat, copy, eq_ignore_case, hex, hex_number, same_ignoring_case, str_eq};
use bevy::image::{
    CompressedImageFormats, ImageAddressMode, ImageFilterMode, ImageSampler,
    ImageSamplerDescriptor, ImageType,
};
use vstd::prelude::*;

verus! {

/// The identities of translator modules start with these bits.
pub const MODULE_UUID_PREFIX: u128 = 0x4d58_5745_534c_4d4f_0000_0000_0000_0000;

/// The identities of generated graphs start with these bits.
pub const GRAPH_UUID_PREFIX: u128 = 0x4d58_4752_4150_4853_0000_0000_0000_0000;

/// How many finished images one frame publishes.
pub const MAX_COMPLETIONS_PER_FRAME: usize = 2;

/// What sampling does past the edge of an image.
#[derive(Debug, Clone, Copy, PartialEq, Eq, Structural)]
pub enum AddressMode {
    Repeat,
    MirrorRepeat,
    ClampToEdge,
}

/// How samples between pixels are made.
#[derive(Debug, Clone, Copy, PartialEq, Eq, Structural)]
pub enum FilterMode {
    Nearest,
    Linear,
}

/// The sampler settings of a texture.
#[derive(Debug, Clone, Copy, PartialEq, Eq, Structural)]
pub struct Sampling {
    pub u: AddressMode,
    pub v: AddressMode,
    pub filter: FilterMode,
}

/// The address mode that a MaterialX name stands for.
pub open spec fn address_mode_of(mode: Seq<char>) -> AddressMode {
    if same_ignoring_case(mode, "periodic"@) || same_ignoring_case(mode, "repeat"@) {
        AddressMode::Repeat
    } else if same_ignoring_case(mode, "mirror"@) || same_ignoring_case(mode, "mirror_repeat"@) {
        AddressMode::MirrorRepeat
    } else {
        AddressMode::ClampToEdge
    }
}

/// The sampler settings of a texture.
pub open spec fn sampling_of(texture: TextureView) -> Sampling {
    Sampling {
        u: address_mode_of(texture.u_address_mode),
        v: address_mode_of(texture.v_address_mode),
        filter: if same_ignoring_case(texture.filter_type, "closest"@) {
            FilterMode::Nearest
        } else {
            FilterMode::Linear
        },
    }
}

/// The address mode that a MaterialX name stands for.
pub fn address_mode(mode: &str) -> (r: AddressMode)
    ensures
        r == address_mode_of(mode@),
{
    if eq_ignore_case(mode, "periodic") || eq_ignore_case(mode, "repeat") {
        AddressMode::Repeat
    } else if eq_ignore_case(mode, "mirror") || eq_ignore_case(mode, "mirror_repeat") {
        AddressMode::MirrorRepeat
    } else {
        AddressMode::ClampToEdge
    }
}

/// The sampler settings of a texture.
pub fn texture_sampler(texture: &CompiledTexture) -> (r: Sampling)
    ensures
        r == sampling_of(texture@),
{
    Sampling {
        u: address_mode(texture.u_address_mode.as_str()),
        v: address_mode(texture.v_address_mode.as_str()),
        filter: if eq_ignore_case(texture.filter_type.as_str(), "closest") {
            FilterMode::Nearest
        } else {
            FilterMode::Linear
        },
    }
}

/// A decoded image of the renderer.
#[verifier::external_type_specification]
#[verifier::external_body]
pub struct ExImage(bevy::image::Image);

/// The image, or the text of what went wrong.
pub open spec fn answer_of(r: Result<bevy::image::Image, String>) -> Result<
    bevy::image::Image,
    Seq<char>,
> {
    match r {
        Ok(image) => Ok(image),
        Err(e) => Err(e@),
    }
}

/// On some machine, `Image::from_buffer` answers with this image, or with an
/// error of this text, for these bytes, file extension, colour space and
/// sampler settings.
pub uninterp spec fn decoding_ends(
    bytes: Seq<u8>,
    extension: Seq<char>,
    is_srgb: bool,
    sampling: Sampling,
    answer: Result<bevy::image::Image, Seq<char>>,
) -> bool;

/// `bevy::image::Image::from_buffer` with the format of the file extension and
/// a sampler of the given settings; an error by its text. The answer is one
/// that the function gives for exactly these arguments. Whether the bytes can
/// be decoded also rests on the machine (its memory and word size), so no
/// success is promised, and nothing is said of the single pixels.
#[verifier::external_body]
fn decode_image(bytes: &Vec<u8>, extension: &str, is_srgb: bool, sampling: Sampling) -> (r: Result<
    bevy::image::Image,
    String,
>)
    ensures
        decoding_ends(bytes@, extension@, is_srgb, sampling, answer_of(r)),
{
    let mode = |m: AddressMode| match m {
        AddressMode::Repeat => ImageAddressMode::Repeat,
        AddressMode::MirrorRepeat => ImageAddressMode::MirrorRepeat,
        AddressMode::ClampToEdge => ImageAddressMode::ClampToEdge,
    };
    let mut settings = ImageSamplerDescriptor::linear();
    (settings.address_mode_u, settings.address_mode_v) = (mode(sampling.u), mode(sampling.v));
    settings.set_filter(match sampling.filter {
        FilterMode::Nearest => ImageFilterMode::Nearest,
        FilterMode::Linear => ImageFilterMode::Linear,
    });
    let (format, sampler) = (ImageType::Extension(extension), ImageSampler::Descriptor(settings));
    let none = CompressedImageFormats::NONE;
    bevy::image::Image::from_buffer(bytes, format, none, is_srgb, sampler, Default::default())
        .map_err(|e| e.to_string())
}

/// What decoding gives for the decoder's answer.
pub fn decoded_or_message(answer: Result<bevy::image::Image, String>) -> (r: Result<
    bevy::image::Image,
    String,
>)
    ensures
        match answer {
            Ok(image) => r == Ok::<bevy::image::Image, String>(image),
            Err(error) => r matches Err(message) && message@ == "cannot decode texture: "@ + error@,
        },
{
    match answer {
        Ok(image) => Ok(image),
        Err(error) => Err(cat("cannot decode texture: ", error.as_str())),
    }
}

/// The decoder answered for these arguments with an error of this text.
pub open spec fn fails_with(
    texture: TextureView,
    bytes: Seq<u8>,
    extension: Seq<char>,
    error: Seq<char>,
) -> bool {
    decoding_ends(
        bytes,
        extension,
        texture.is_srgb,
        sampling_of(texture),
        Err::<bevy::image::Image, Seq<char>>(error),
    )
}

/// The image is one that the decoder gives for these bytes in the texture's
/// colour space and with its sampler settings; an error tells the decoder's.
pub open spec fn decodes_texture(
    texture: TextureView,
    bytes: Seq<u8>,
    extension: Seq<char>,
    r: Result<bevy::image::Image, String>,
) -> bool {
    match r {
        Ok(image) => decoding_ends(
            bytes,
            extension,
            texture.is_srgb,
            sampling_of(texture),
            Ok::<bevy::image::Image, Seq<char>>(image),
        ),
        Err(message) => exists|error: Seq<char>| #[trigger]
            fails_with(texture, bytes, extension, error) && message@ == "cannot decode texture: "@
                + error,
    }
}

/// Decode a texture from the bytes that the host read for it. The format goes
/// by the file extension.
pub fn decode_texture(texture: &CompiledTexture, read: Result<Vec<u8>, String>) -> (r: Result<
    bevy::image::Image,
    String,
>)
    ensures
        match read {
            Err(error) => r matches Err(message) && message@ == "cannot read texture: "@ + error@,
            Ok(bytes) => match file_extension(texture@.path) {
                None => r matches Err(message) && message@
                    == "texture has no usable file extension"@,
                Some(extension) => decodes_texture(texture@, bytes@, extension, r),
            },
        },
{
    let bytes = match read {
        Ok(bytes) => bytes,
        Err(error) => return Err(cat("cannot read texture: ", error.as_str())),
    };
    let extension = match extension_of(texture.path.as_str()) {
        Some(extension) => extension,
        None => return Err(copy("texture has no usable file extension")),
    };
    let answer = decode_image(
        &bytes,
        extension.as_str(),
        texture.is_srgb,
        texture_sampler(texture),
    );
    assert(texture@.is_srgb == texture.is_srgb);
    if let Err(error) = &answer {
        assert(fails_with(texture@, bytes@, extension@, error@));
    }
    decoded_or_message(answer)
}

/// The identity of a translator module whose name hashes to `hash`.
pub open spec fn module_identity(hash: u64) -> u128 {
    (MODULE_UUID_PREFIX + hash) as u128
}

/// The identity of a generated graph.
pub open spec fn graph_identity(graph_key: u64) -> u128 {
    (GRAPH_UUID_PREFIX + graph_key) as u128
}

/// The identity of a translator module whose name hashes to `hash`.
pub fn module_uuid(hash: u64) -> (r: u128)
    ensures
        r == module_identity(hash),
{
    let low: u128 = hash as u128;
    assert(low <= 0xffff_ffff_ffff_ffff ==> 0x4d58_5745_534c_4d4f_0000_0000_0000_0000u128 | low
        == (0x4d58_5745_534c_4d4f_0000_0000_0000_0000u128 + low) as u128) by (bit_vector);
    MODULE_UUID_PREFIX | low
}

/// The identity of a generated graph.
pub fn graph_uuid(graph_key: u64) -> (r: u128)
    ensures
        r == graph_identity(graph_key),
{
    let low: u128 = graph_key as u128;
    assert(low <= 0xffff_ffff_ffff_ffff ==> 0x4d58_4752_4150_4853_0000_0000_0000_0000u128 | low
        == (0x4d58_4752_4150_4853_0000_0000_0000_0000u128 + low) as u128) by (bit_vector);
    GRAPH_UUID_PREFIX | low
}

/// Graph identities are different for different keys and never meet a module
/// identity.
pub proof fn identities_are_namespaced(a: u64, b: u64, hash: u64)
    ensures
        graph_identity(a) == graph_identity(b) ==> a == b,
        module_identity(a) == module_identity(b) ==> a == b,
        graph_identity(a) != module_identity(hash),
{
}

/// `id` is an identity that is made of a hash of the module's name.
pub open spec fn identifies_module(module: Seq<char>, id: u128) -> bool {
    exists|hash: u64|
        hashes_to(module, Seq::<i128>::empty(), hash) && id == #[trigger] module_identity(hash)
}

/// The identity of the translator module called `module`.
pub fn module_shader(module: &str) -> (r: u128)
    ensures
        identifies_module(module@, r),
{
    let none: Vec<i128> = Vec::new();
    assert(none@ =~= Seq::<i128>::empty());
    let hash: u64 = fixed_hash(module, &none);
    module_uuid(hash)
}

/// The asset path of a generated graph.
pub open spec fn graph_asset_path(graph_key: u64) -> Seq<char> {
    "embedded://usd_bevy/materialx/graph_"@ + hex(graph_key as nat, 16) + ".wesl"@
}

/// The asset path of a generated graph.
pub fn graph_path(graph_key: u64) -> (r: String)
    ensures
        r@ == graph_asset_path(graph_key),
{
    let mut out = copy("embedded://usd_bevy/materialx/graph_");
    out.append(hex_number(graph_key, 16).as_str());
    out.append(".wesl");
    out
}

impl Lane {
    /// A lane that holds the same.
    pub fn duplicate(&self) -> (r: Lane)
        ensures
            r@ == self@,
    {
        match self {
            Lane::Bits32(b) => Lane::Bits32(*b),
            Lane::Bits64(b) => Lane::Bits64(*b),
            Lane::Int(n) => Lane::Int(*n),
            Lane::Literal(text) => Lane::Literal(copy(text.as_str())),
        }
    }
}

impl Slot {
    /// A slot that holds the same.
    pub fn duplicate(&self) -> (r: Slot)
        ensures
            r@ == self@,
    {
        Slot {
            x: self.x.duplicate(),
            y: self.y.duplicate(),
            z: self.z.duplicate(),
            w: self.w.duplicate(),
        }
    }
}

impl CompiledTexture {
    /// A texture that says the same.
    pub fn duplicate(&self) -> (r: CompiledTexture)
        ensures
            r@ == self@,
    {
        CompiledTexture {
            path: copy(self.path.as_str()),
            is_srgb: self.is_srgb,
            u_address_mode: copy(self.u_address_mode.as_str()),
            v_address_mode: copy(self.v_address_mode.as_str()),
            filter_type: copy(self.filter_type.as_str()),
        }
    }

    /// Whether the two textures say the same.
    pub fn same_as(&self, other: &CompiledTexture) -> (r: bool)
        ensures
            r == (self@ == other@),
    {
        str_eq(self.path.as_str(), other.path.as_str()) && self.is_srgb == other.is_srgb && str_eq(
            self.u_address_mode.as_str(),
            other.u_address_mode.as_str(),
        ) && str_eq(self.v_address_mode.as_str(), other.v_address_mode.as_str()) && str_eq(
            self.filter_type.as_str(),
            other.filter_type.as_str(),
        )
    }
}

/// A slot of zeros.
pub open spec fn zero_slot() -> SlotView {
    SlotView { x: zero_lane(), y: zero_lane(), z: zero_lane(), w: zero_lane() }
}

/// The host-side resources of a material: a full block of uniform slots, the
/// textures of the four texture slots, and the pipeline settings.
#[derive(Debug)]
pub struct MaterialPlan {
    pub values: Vec<Slot>,
    pub textures: Vec<CompiledTexture>,
    pub graph_key: u64,
    pub blend: bool,
    pub transmission: bool,
}

/// The uniform block: the compiled values, then zeros.
pub open spec fn uniform_block(uniforms: Seq<SlotView>) -> Seq<SlotView> {
    Seq::new(
        MAX_UNIFORMS as nat,
        |i: int|
            if i < uniforms.len() {
                uniforms[i]
            } else {
                zero_slot()
            },
    )
}

/// The textures that the four slots take.
pub open spec fn slotted_textures(textures: Seq<TextureView>) -> Seq<TextureView> {
    if textures.len() <= MAX_TEXTURES {
        textures
    } else {
        textures.take(MAX_TEXTURES as int)
    }
}

/// The host-side resources of a compiled material.
pub fn plan_material(compiled: &CompiledMaterialX) -> (r: MaterialPlan)
    ensures
        slot_views(r.values@) == uniform_block(compiled@.uniforms),
        texture_views(r.textures@) == slotted_textures(compiled@.textures),
        r.graph_key == compiled.graph_key,
        r.blend == compiled.alpha_blend,
        r.transmission == compiled.transmission,
{
    let mut values: Vec<Slot> = Vec::new();
    for i in 0..MAX_UNIFORMS
        invariant
            values@.len() == i,
            forall|k: int|
                0 <= k < i ==> (#[trigger] values@[k])@ == uniform_block(compiled@.uniforms)[k],
    {
        if i < compiled.uniforms.len() {
            values.push(compiled.uniforms[i].duplicate());
            assert(compiled@.uniforms[i as int] == compiled.uniforms@[i as int]@);
        } else {
            let zero = Slot {
                x: Lane::Bits32(0),
                y: Lane::Bits32(0),
                z: Lane::Bits32(0),
                w: Lane::Bits32(0),
            };
            assert(zero@ == zero_slot());
            values.push(zero);
        }
    }
    assert(slot_views(values@) =~= uniform_block(compiled@.uniforms));
    let count: usize = if compiled.textures.len() <= MAX_TEXTURES {
        compiled.textures.len()
    } else {
        MAX_TEXTURES
    };
    let mut textures: Vec<CompiledTexture> = Vec::new();
    for i in 0..count
        invariant
            count <= compiled.textures@.len(),
            textures@.len() == i,
            forall|k: int| 0 <= k < i ==> (#[trigger] textures@[k])@ == compiled.textures@[k]@,
    {
        textures.push(compiled.textures[i].duplicate());
    }
    assert(texture_views(textures@) =~= slotted_textures(compiled@.textures));
    MaterialPlan {
        values,
        textures,
        graph_key: compiled.graph_key,
        blend: compiled.alpha_blend,
        transmission: compiled.transmission,
    }
}

/// A compiled material within the limits keeps all its values and textures.
pub proof fn plan_keeps_everything(uniforms: Seq<SlotView>, textures: Seq<TextureView>)
    requires
        uniforms.len() <= MAX_UNIFORMS,
        textures.len() <= MAX_TEXTURES,
    ensures
        uniform_block(uniforms).take(uniforms.len() as int) == uniforms,
        slotted_textures(textures) == textures,
{
    assert(uniform_block(uniforms).take(uniforms.len() as int) =~= uniforms);
}

/// The diagnostic of a texture that could not be loaded.
pub open spec fn texture_problem(
    material: Seq<char>,
    path: Seq<char>,
    message: Seq<char>,
) -> DiagnosticView {
    error_view(DiagnosticCode::MissingAsset, material, None, Some(path), message)
}

/// The diagnostic of a texture that could not be loaded.
pub fn texture_error(material: &str, path: &str, message: &str) -> (r: MaterialXDiagnostic)
    ensures
        r@ == texture_problem(material@, path@, message@),
{
    MaterialXDiagnostic::error(
        DiagnosticCode::MissingAsset,
        material,
        None,
        Some(copy(path)),
        message,
    )
}

/// What to do for a texture that a material needs.
#[derive(Debug)]
pub enum TextureStep<'a, H> {
    /// Its handle is known: use it.
    Reuse(&'a H),
    /// Nothing can hold an image.
    Refuse(MaterialXDiagnostic),
    /// Reserve a handle and decode off the frame.
    Spawn,
    /// Decode now.
    DecodeNow,
}

/// The handle that the cache, where there is one, keeps for a texture.
pub open spec fn kept<H>(cache: Option<&MaterialXTextureCache<H>>, key: TextureView) -> Option<H> {
    match cache {
        Some(c) => c.lookup(key),
        None => None,
    }
}

/// What to do for a texture, given what the host has: the cached handles, image
/// storage, the pending table and the task pool.
pub fn load_texture<'a, H>(
    material: &str,
    texture: &CompiledTexture,
    cache: Option<&'a MaterialXTextureCache<H>>,
    has_images: bool,
    has_pending_table: bool,
    has_task_pool: bool,
) -> (r: TextureStep<'a, H>)
    ensures
        match kept(cache, texture@) {
            Some(handle) => r == TextureStep::Reuse(&handle),
            None => if !has_images {
                r matches TextureStep::Refuse(d) && d@ == texture_problem(
                    material@,
                    texture@.path,
                    "Image assets are unavailable; add Bevy's image/render plugins before UsdPlugin"@,
                )
            } else if has_pending_table && has_task_pool {
                r == TextureStep::<H>::Spawn
            } else {
                r == TextureStep::<H>::DecodeNow
            },
        },
{
    if let Some(c) = cache {
        if let Some(handle) = c.get(texture) {
            return TextureStep::Reuse(handle);
        }
    }
    if !has_images {
        TextureStep::Refuse(
            texture_error(
                material,
                texture.path.as_str(),
                "Image assets are unavailable; add Bevy's image/render plugins before UsdPlugin",
            ),
        )
    } else if has_pending_table && has_task_pool {
        TextureStep::Spawn
    } else {
        TextureStep::DecodeNow
    }
}

/// Handles of textures that were decoded or are being decoded.
#[derive(Debug)]
pub struct MaterialXTextureCache<H> {
    entries: Vec<(CompiledTexture, H)>,
}

/// The handle of the first entry for `key`.
pub open spec fn find_texture<H>(entries: Seq<(CompiledTexture, H)>, key: TextureView) -> Option<H>
    decreases entries.len(),
{
    if entries.len() == 0 {
        None
    } else if entries[0].0@ == key {
        Some(entries[0].1)
    } else {
        find_texture(entries.skip(1), key)
    }
}

proof fn other_keys_stay<H>(entries: Seq<(CompiledTexture, H)>, i: int, key: TextureView)
    requires
        0 <= i < entries.len(),
        entries[i].0@ != key,
    ensures
        find_texture(entries.remove(i), key) == find_texture(entries, key),
    decreases entries.len(),
{
    if i == 0 {
        assert(entries.remove(0) =~= entries.skip(1));
    } else {
        other_keys_stay(entries.skip(1), i - 1, key);
        assert(entries.remove(i).skip(1) =~= entries.skip(1).remove(i - 1));
    }
}

impl<H> MaterialXTextureCache<H> {
    /// The handle that is kept for a texture.
    pub closed spec fn lookup(self, key: TextureView) -> Option<H> {
        find_texture(self.entries@, key)
    }

    pub fn new() -> (r: Self)
        ensures
            forall|key: TextureView| (#[trigger] r.lookup(key)) is None,
    {
        MaterialXTextureCache { entries: Vec::new() }
    }

    /// The handle that is kept for a texture.
    pub fn get(&self, texture: &CompiledTexture) -> (r: Option<&H>)
        ensures
            r == (match self.lookup(texture@) {
                Some(h) => Some(&h),
                None => None,
            }),
    {
        let mut i: usize = 0;
        assert(self.entries@.skip(0) =~= self.entries@);
        while i < self.entries.len()
            invariant
                i <= self.entries@.len(),
                find_texture(self.entries@, texture@) == find_texture(
                    self.entries@.skip(i as int),
                    texture@,
                ),
            decreases self.entries@.len() - i,
        {
            if self.entries[i].0.same_as(texture) {
                return Some(&self.entries[i].1);
            }
            assert(self.entries@.skip(i as int).skip(1) =~= self.entries@.skip(i as int + 1));
            i = i + 1;
        }
        None
    }

    /// Keeps a handle for a texture; one that was kept before goes.
    pub fn insert(&mut self, texture: CompiledTexture, handle: H)
        ensures
            final(self).lookup(texture@) == Some(handle),
            forall|key: TextureView|
                key != texture@ ==> #[trigger] final(self).lookup(key) == old(self).lookup(key),
    {
        let ghost before = self.entries@;
        let mut i: usize = 0;
        while i < self.entries.len()
            invariant_except_break
                self.entries@ == before,
                i <= before.len(),
            ensures
                forall|key: TextureView|
                    key != texture@ ==> #[trigger] find_texture(self.entries@, key)
                        == find_texture(before, key),
            decreases before.len() - i,
        {
            if self.entries[i].0.same_as(&texture) {
                let _ = self.entries.remove(i);
                assert forall|key: TextureView| key != texture@ implies #[trigger] find_texture(
                    self.entries@,
                    key,
                ) == find_texture(before, key) by {
                    other_keys_stay(before, i as int, key);
                }
                break;
            }
            i = i + 1;
        }
        let ghost kept = self.entries@;
        self.entries.insert(0, (texture, handle));
        assert(self.entries@.skip(1) =~= kept);
        assert forall|key: TextureView| key != texture@ implies #[trigger] self.lookup(key) == old(
            self,
        ).lookup(key) by {
            assert(find_texture(kept, key) == find_texture(before, key));
        }
    }
}

/// A texture that is being decoded off the frame.
#[derive(Debug)]
pub struct PendingTexture<K, H> {
    pub texture: CompiledTexture,
    pub task: K,
    pub handle: H,
    pub material: String,
}

/// Texture reads and decodes that are still running.
#[derive(Debug)]
pub struct MaterialXPendingTextures<K, H> {
    pub pending: Vec<PendingTexture<K, H>>,
}

impl<K, H> MaterialXPendingTextures<K, H> {
    pub fn new() -> (r: Self)
        ensures
            r.pending@.len() == 0,
    {
        MaterialXPendingTextures { pending: Vec::new() }
    }

    /// Registers a running decode.
    pub fn insert(&mut self, texture: CompiledTexture, task: K, handle: H, material: String)
        ensures
            final(self).pending@ == old(self).pending@.push(
                (PendingTexture { texture, task, handle, material }),
            ),
    {
        self.pending.push(PendingTexture { texture, task, handle, material });
    }

    /// Takes out the decodes that this frame publishes; the others keep their
    /// order. `done` tells of each running decode whether it has finished.
    pub fn take_completed(&mut self, done: &Vec<bool>) -> (r: Vec<PendingTexture<K, H>>)
        requires
            done@.len() == old(self).pending@.len(),
        ensures
            r@ == published(
                old(self).pending@,
                done@,
                MAX_COMPLETIONS_PER_FRAME as nat,
                done@.len(),
            ),
            final(self).pending@ == left_over(
                old(self).pending@,
                done@,
                MAX_COMPLETIONS_PER_FRAME as nat,
                done@.len(),
            ),
    {
        take_completed(&mut self.pending, done, MAX_COMPLETIONS_PER_FRAME)
    }
}

/// A shader module to register: its identity, asset path and source.
#[derive(Debug)]
pub struct ShaderModule {
    pub id: u128,
    pub path: String,
    pub source: String,
}

/// The shader modules that a compiled material needs: every translator module,
/// then the graph's own root. Only those that are not registered yet have to
/// be added.
pub fn register_shaders(registry: &MaterialXRegistry, compiled: &CompiledMaterialX) -> (r: Vec<
    ShaderModule,
>)
    ensures
        r@.len() == registry.module_list().len() + 1,
        forall|i: int|
            0 <= i < registry.module_list().len() ==> (#[trigger] r@[i]).path@
                == registry.module_list()[i].asset_path@ && r@[i].source@
                == registry.module_list()[i].source@ && identifies_module(
                registry.module_list()[i].module@,
                r@[i].id,
            ),
        r@.last().id == graph_identity(compiled.graph_key),
        r@.last().path@ == graph_asset_path(compiled.graph_key),
        r@.last().source@ == compiled.wesl@,
{
    let modules = registry.translator_modules();
    let mut out: Vec<ShaderModule> = Vec::new();
    for i in 0..modules.len()
        invariant
            modules@ == registry.module_list(),
            out@.len() == i,
            forall|k: int|
                0 <= k < i ==> (#[trigger] out@[k]).path@ == modules@[k].asset_path@
                    && out@[k].source@ == modules@[k].source@ && identifies_module(
                    modules@[k].module@,
                    out@[k].id,
                ),
    {
        let module = &modules[i];
        let id: u128 = module_shader(module.module.as_str());
        out.push(
            ShaderModule {
                id,
                path: copy(module.asset_path.as_str()),
                source: copy(module.source.as_str()),
            },
        );
    }
    out.push(
        ShaderModule {
            id: graph_uuid(compiled.graph_key),
            path: graph_path(compiled.graph_key),
            source: copy(compiled.wesl.as_str()),
        },
    );
    out
}

} // verus!
