//! The import of one asset: decode, then the transforms that the options
//! ask for, in a fixed order.
//!
//! For a texture the order is: decode, bleed of colour into transparent
//! pixels, growth of the mip chain, encoding, colour space. For a mesh the
//! buffer is decoded and the steps that compute with its numbers are
//! decided: normals, tangents, scale, to be taken by the caller in this
//! order, since this crate keeps such numbers as bits. Nothing but the
//! arguments is read and nothing is kept, so the same arguments give the
//! same result.

use vstd::prelude::*;
use vstd::string::StringSliceAdditionalSpecFns;
use crate::archive::{read_result, Archive, Entry};
use crate::error::ImportError;
use crate::mesh::{Geometry, Mesh};
use crate::mesh_decode::{decode_mesh, decoded_mesh, MeshFormat};
use crate::options::{is_positive_scale, CompressionMode, ImportOptions};
use crate::texture::{
    block_bytes, blocks, chain_len, lemma_chain_ends_at_one, lemma_chain_len_at_most_32,
    lemma_mip_dim_is_shift, lemma_one_by_one_is_last, level_bytes, shifted_dim, Image,
    PixelFormat, Texture,
};
use crate::texture::ColorSpace;
use crate::texture_decode::{
    decode_texture, decoded_texture, lemma_decoded_texture_is_chain, TextureFormat,
};
use crate::transform::{
    color_space_for, expanded, has_transparency, lemma_bleed_is_idle_without_transparency,
    lemma_processed_is_chain, lemma_srgb_sets_the_flag_only, lemma_stored_levels_kept,
    process_texture, processed,
};

verus! {

/// What kind of asset a buffer holds.
#[derive(Clone, Copy, Debug, PartialEq, Eq)]
pub enum AssetKind {
    Mesh,
    Texture,
}

/// What is known of the layout of a buffer, by its file name for one.
#[derive(Clone, Copy, Debug, PartialEq, Eq)]
pub enum FormatHint {
    /// Nothing: the layout is told by the first bytes.
    Unknown,
    Skn,
    Scb,
    Sco,
    Dds,
    Tex,
}

/// The steps on the numbers of a mesh that an import asks for.
#[derive(Clone, Copy, Debug, PartialEq, Eq)]
pub struct MeshPlan {
    /// Whether normals are to be made from the triangles.
    pub normals: bool,
    /// Whether tangents are to be made from the texture coordinates.
    pub tangents: bool,
    /// The factor for the positions, as the bits of a double-precision
    /// number, where there is one to apply.
    pub scale: Option<u64>,
}

/// A decoded mesh with the steps that are still to be taken on it.
#[derive(Clone, Debug, PartialEq, Eq)]
pub struct ImportedMesh {
    pub mesh: Mesh,
    pub plan: MeshPlan,
}

/// What an import yields.
#[derive(Clone, Debug, PartialEq, Eq)]
pub enum Asset {
    Mesh(ImportedMesh),
    Texture(Texture),
}

/// What an asset holds, as the contracts speak of it.
pub enum Outcome {
    Mesh(Geometry, MeshPlan),
    Texture(Image),
}

impl View for Asset {
    type V = Outcome;

    open spec fn view(&self) -> Outcome {
        match self {
            Asset::Mesh(imported) => Outcome::Mesh(imported.mesh@, imported.plan),
            Asset::Texture(texture) => Outcome::Texture(texture@),
        }
    }
}

/// The layout of a mesh that the first bytes of a buffer tell, if any.
pub open spec fn sniffed_mesh(s: Seq<u8>) -> Option<MeshFormat> {
    if s.len() >= 4 && s[0] == 0x33 && s[1] == 0x22 && s[2] == 0x11 && s[3] == 0 {
        Some(MeshFormat::Skn)
    } else if s.len() >= 8 && s[0] == 0x72 && s[1] == 0x33 && s[2] == 0x64 && s[3] == 0x32 && s[4]
        == 0x4d && s[5] == 0x65 && s[6] == 0x73 && s[7] == 0x68 {
        Some(MeshFormat::Scb)
    } else if s.len() >= 4 && s[0] == 0x53 && s[1] == 0x43 && s[2] == 0x4f && s[3] == 0 {
        Some(MeshFormat::Sco)
    } else {
        None
    }
}

/// The container of a texture that the first bytes of a buffer tell, if
/// any.
pub open spec fn sniffed_texture(s: Seq<u8>) -> Option<TextureFormat> {
    if s.len() >= 4 && s[0] == 0x44 && s[1] == 0x44 && s[2] == 0x53 && s[3] == 0x20 {
        Some(TextureFormat::Dds)
    } else if s.len() >= 4 && s[0] == 0x54 && s[1] == 0x45 && s[2] == 0x58 && s[3] == 0 {
        Some(TextureFormat::Tex)
    } else {
        None
    }
}

/// The layout in which a mesh is decoded: the hinted one where the hint
/// names a layout of meshes, else the one that the first bytes tell.
pub open spec fn mesh_format_for(hint: FormatHint, s: Seq<u8>) -> Option<MeshFormat> {
    match hint {
        FormatHint::Skn => Some(MeshFormat::Skn),
        FormatHint::Scb => Some(MeshFormat::Scb),
        FormatHint::Sco => Some(MeshFormat::Sco),
        _ => sniffed_mesh(s),
    }
}

/// The container in which a texture is decoded: the hinted one where the
/// hint names a container of textures, else the one that the first bytes
/// tell.
pub open spec fn texture_format_for(hint: FormatHint, s: Seq<u8>) -> Option<TextureFormat> {
    match hint {
        FormatHint::Dds => Some(TextureFormat::Dds),
        FormatHint::Tex => Some(TextureFormat::Tex),
        _ => sniffed_texture(s),
    }
}

/// The steps that the options ask for on a mesh.
///
/// Normals are made where the mesh has none, or where the option asks for
/// them whatever the mesh has. Tangents are made where the option asks for
/// them and the mesh has texture coordinates. The scale is applied where it
/// is a positive, finite number.
pub open spec fn mesh_plan(geometry: Geometry, options: ImportOptions) -> MeshPlan {
    MeshPlan {
        normals: !geometry.has_normals() || options.generate_normals,
        tangents: options.generate_tangents && geometry.has_uvs(),
        scale: if is_positive_scale(options.scale) {
            Some(options.scale)
        } else {
            None
        },
    }
}

/// What an import yields.
pub open spec fn imported(s: Seq<u8>, kind: AssetKind, hint: FormatHint, options: ImportOptions) -> Result<Outcome, ImportError> {
    if s.len() == 0 {
        Err(ImportError::MissingInput)
    } else {
        match kind {
            AssetKind::Mesh => match mesh_format_for(hint, s) {
                None => Err(ImportError::InvalidMagic),
                Some(format) => match decoded_mesh(s, format) {
                    Err(e) => Err(e),
                    Ok(geometry) => Ok(Outcome::Mesh(geometry, mesh_plan(geometry, options))),
                },
            },
            AssetKind::Texture => match texture_format_for(hint, s) {
                None => Err(ImportError::InvalidMagic),
                Some(format) => match decoded_texture(s, format) {
                    Err(e) => Err(e),
                    Ok(image) => Ok(Outcome::Texture(processed(image, options))),
                },
            },
        }
    }
}

/// Whether a result is the failure, or holds the outcome, of an import.
pub open spec fn agrees(result: Result<Asset, ImportError>, outcome: Result<Outcome, ImportError>) -> bool {
    match result {
        Ok(asset) => outcome == Ok::<Outcome, ImportError>(asset@),
        Err(e) => outcome == Err::<Outcome, ImportError>(e),
    }
}

/// A mesh that has normals keeps them where the option does not ask for
/// new ones: no step for normals is planned.
pub proof fn lemma_normals_kept(geometry: Geometry, options: ImportOptions)
    requires
        geometry.has_normals(),
        !options.generate_normals,
    ensures
        !mesh_plan(geometry, options).normals,
{
}

/// A mesh without normals gets them, whatever the option says.
pub proof fn lemma_normals_made(geometry: Geometry, options: ImportOptions)
    requires
        !geometry.has_normals() || options.generate_normals,
    ensures
        mesh_plan(geometry, options).normals,
{
}

/// A failure of the decoder is the failure of the import, unchanged.
pub proof fn lemma_decoder_failure_propagates(s: Seq<u8>, kind: AssetKind, hint: FormatHint, options: ImportOptions)
    requires
        s.len() > 0,
    ensures
        kind == AssetKind::Mesh && mesh_format_for(hint, s) is Some && decoded_mesh(
            s,
            mesh_format_for(hint, s)->0,
        ) is Err ==> imported(s, kind, hint, options) == Err::<Outcome, ImportError>(
            decoded_mesh(s, mesh_format_for(hint, s)->0)->Err_0,
        ),
        kind == AssetKind::Texture && texture_format_for(hint, s) is Some && decoded_texture(
            s,
            texture_format_for(hint, s)->0,
        ) is Err ==> imported(s, kind, hint, options) == Err::<Outcome, ImportError>(
            decoded_texture(s, texture_format_for(hint, s)->0)->Err_0,
        ),
{
}

/// Whether a buffer decodes to the texture `image`, in the container that
/// the hint or its first bytes tell.
pub open spec fn decodes_to(s: Seq<u8>, hint: FormatHint, image: Image) -> bool {
    &&& s.len() > 0
    &&& texture_format_for(hint, s) is Some
    &&& decoded_texture(s, texture_format_for(hint, s)->0) == Ok::<Image, ImportError>(image)
}

/// The import of a buffer that decodes to a texture yields that texture
/// after the transforms that the options ask for. It has the size of the
/// decoded texture and a chain of that size, each level of the length that
/// its size asks for; the chain is the full one where mipmaps are asked
/// for, and as long as it was where they are not, whatever the other
/// options are.
pub proof fn lemma_import_of_texture(s: Seq<u8>, hint: FormatHint, options: ImportOptions, image: Image)
    requires
        decodes_to(s, hint, image),
    ensures
        image.wf(),
        imported(s, AssetKind::Texture, hint, options) == Ok::<Outcome, ImportError>(
            Outcome::Texture(processed(image, options)),
        ),
        processed(image, options).wf(),
        processed(image, options).width == image.width,
        processed(image, options).height == image.height,
        options.generate_mipmaps ==> processed(image, options).complete(),
        !options.generate_mipmaps ==> processed(image, options).levels.len() == image.levels.len(),
{
    lemma_decoded_texture_is_chain(s, texture_format_for(hint, s)->0);
    lemma_processed_is_chain(image, options);
}

/// At the import with mipmaps asked for, the texture that a buffer decodes
/// to comes out with the full chain of its size: as many levels as the full
/// chain has; level `i` of `max(1, W >> i)` by `max(1, H >> i)` pixels and of
/// the length that this size asks for in the format of the result; and the
/// level of 1 by 1 last and once.
pub proof fn lemma_import_makes_the_full_chain(s: Seq<u8>, hint: FormatHint, options: ImportOptions, image: Image, w: u32, h: u32, i: u32)
    requires
        decodes_to(s, hint, image),
        options.generate_mipmaps,
        image.width == w,
        image.height == h,
        i < chain_len(w as nat, h as nat),
    ensures
        imported(s, AssetKind::Texture, hint, options) == Ok::<Outcome, ImportError>(
            Outcome::Texture(processed(image, options)),
        ),
        processed(image, options).width == w,
        processed(image, options).height == h,
        processed(image, options).levels.len() == chain_len(w as nat, h as nat),
        processed(image, options).levels[i as int].len() == level_bytes(
            processed(image, options).format,
            shifted_dim(w, i),
            shifted_dim(h, i),
        ),
        (shifted_dim(w, i) == 1 && shifted_dim(h, i) == 1) <==> i + 1 == chain_len(
            w as nat,
            h as nat,
        ),
{
    lemma_import_of_texture(s, hint, options, image);
    lemma_chain_len_at_most_32(w, h);
    lemma_mip_dim_is_shift(w, i);
    lemma_mip_dim_is_shift(h, i);
    if i + 1 == chain_len(w as nat, h as nat) {
        lemma_chain_ends_at_one(w as nat, h as nat);
    } else {
        lemma_one_by_one_is_last(w as nat, h as nat, i as nat);
    }
}

/// At the import of a texture of four bytes a pixel, without the bleed and
/// with pixels stored as they are, the levels that the buffer holds come
/// out first and unchanged: only the levels after them are made.
pub proof fn lemma_import_keeps_stored_levels(s: Seq<u8>, hint: FormatHint, options: ImportOptions, image: Image)
    requires
        decodes_to(s, hint, image),
        image.format == PixelFormat::Rgba8,
        !options.fix_alpha_border,
        options.compression_mode != CompressionMode::Lossy,
    ensures
        imported(s, AssetKind::Texture, hint, options) == Ok::<Outcome, ImportError>(
            Outcome::Texture(processed(image, options)),
        ),
        processed(image, options).levels.len() >= image.levels.len(),
        forall|i: int|
            0 <= i < image.levels.len() ==> #[trigger] processed(image, options).levels[i]
                == image.levels[i],
{
    lemma_import_of_texture(s, hint, options, image);
    lemma_stored_levels_kept(image, options);
}

/// The bleed is idle at the import where no pixel is fully transparent: a
/// buffer that decodes to a texture none of whose levels, read as pixels,
/// has a fully transparent pixel is imported with the option as it is
/// without it.
pub proof fn lemma_import_bleed_is_idle(s: Seq<u8>, hint: FormatHint, with: ImportOptions, without: ImportOptions, image: Image)
    requires
        decodes_to(s, hint, image),
        !has_transparency(expanded(image)),
        with.fix_alpha_border,
        without == (ImportOptions { fix_alpha_border: false, ..with }),
    ensures
        imported(s, AssetKind::Texture, hint, with) == imported(
            s,
            AssetKind::Texture,
            hint,
            without,
        ),
{
    lemma_decoded_texture_is_chain(s, texture_format_for(hint, s)->0);
    lemma_bleed_is_idle_without_transparency(image, with, without);
}

/// At the import the option for display gamma sets the flag and nothing
/// else: the texture comes out flagged as display gamma exactly where the
/// option is set and the texture is no normal map, and its levels and its
/// format are the same with the option and without it.
pub proof fn lemma_import_srgb_sets_the_flag_only(s: Seq<u8>, hint: FormatHint, options: ImportOptions, other: ImportOptions, image: Image)
    requires
        decodes_to(s, hint, image),
        other == (ImportOptions { srgb: !options.srgb, ..options }),
    ensures
        imported(s, AssetKind::Texture, hint, options) == Ok::<Outcome, ImportError>(
            Outcome::Texture(processed(image, options)),
        ),
        imported(s, AssetKind::Texture, hint, other) == Ok::<Outcome, ImportError>(
            Outcome::Texture(processed(image, other)),
        ),
        processed(image, options).levels == processed(image, other).levels,
        processed(image, options).format == processed(image, other).format,
        processed(image, options).color_space == ColorSpace::Srgb <==> options.srgb
            && !options.normal_map,
{
    lemma_srgb_sets_the_flag_only(image, options, other);
}

/// Tells the layout of a mesh by the first bytes of a buffer.
pub fn sniff_mesh(bytes: &[u8]) -> (format: Option<MeshFormat>)
    ensures
        format == sniffed_mesh(bytes@),
{
    if bytes.len() >= 4 && bytes[0] == 0x33 && bytes[1] == 0x22 && bytes[2] == 0x11 && bytes[3]
        == 0 {
        Some(MeshFormat::Skn)
    } else if bytes.len() >= 8 && bytes[0] == 0x72 && bytes[1] == 0x33 && bytes[2] == 0x64
        && bytes[3] == 0x32 && bytes[4] == 0x4d && bytes[5] == 0x65 && bytes[6] == 0x73 && bytes[7]
        == 0x68 {
        Some(MeshFormat::Scb)
    } else if bytes.len() >= 4 && bytes[0] == 0x53 && bytes[1] == 0x43 && bytes[2] == 0x4f
        && bytes[3] == 0 {
        Some(MeshFormat::Sco)
    } else {
        None
    }
}

/// Tells the container of a texture by the first bytes of a buffer.
pub fn sniff_texture(bytes: &[u8]) -> (format: Option<TextureFormat>)
    ensures
        format == sniffed_texture(bytes@),
{
    if bytes.len() >= 4 && bytes[0] == 0x44 && bytes[1] == 0x44 && bytes[2] == 0x53 && bytes[3]
        == 0x20 {
        Some(TextureFormat::Dds)
    } else if bytes.len() >= 4 && bytes[0] == 0x54 && bytes[1] == 0x45 && bytes[2] == 0x58
        && bytes[3] == 0 {
        Some(TextureFormat::Tex)
    } else {
        None
    }
}

/// A byte of a file name in lower case, where it is a capital letter.
pub open spec fn lowered(b: u8) -> u8 {
    if 0x41 <= b <= 0x5a {
        (b + 32) as u8
    } else {
        b
    }
}

/// Whether a file name ends with a dot and the three letters given,
/// whatever their case in the name.
pub open spec fn has_extension(name: Seq<u8>, a: u8, b: u8, c: u8) -> bool {
    &&& name.len() >= 4
    &&& name[name.len() - 4] == 0x2e
    &&& lowered(name[name.len() - 3]) == a
    &&& lowered(name[name.len() - 2]) == b
    &&& lowered(name[name.len() - 1]) == c
}

/// What the extension of a file name tells of the layout of the file.
pub open spec fn hint_of(name: Seq<u8>) -> FormatHint {
    if has_extension(name, 0x73, 0x6b, 0x6e) {
        FormatHint::Skn
    } else if has_extension(name, 0x73, 0x63, 0x62) {
        FormatHint::Scb
    } else if has_extension(name, 0x73, 0x63, 0x6f) {
        FormatHint::Sco
    } else if has_extension(name, 0x64, 0x64, 0x73) {
        FormatHint::Dds
    } else if has_extension(name, 0x74, 0x65, 0x78) {
        FormatHint::Tex
    } else {
        FormatHint::Unknown
    }
}

fn lower(b: u8) -> (l: u8)
    ensures
        l == lowered(b),
{
    if 0x41 <= b && b <= 0x5a {
        b + 32
    } else {
        b
    }
}

fn ends_with(name: &[u8], a: u8, b: u8, c: u8) -> (ends: bool)
    ensures
        ends == has_extension(name@, a, b, c),
{
    let n = name.len();
    n >= 4 && name[n - 4] == 0x2e && lower(name[n - 3]) == a && lower(name[n - 2]) == b && lower(
        name[n - 1],
    ) == c
}

impl FormatHint {
    /// Tells the hint that the extension of a file name gives: `skn`, `scb`,
    /// `sco`, `dds` and `tex` in any case name a layout, anything else
    /// leaves it unknown.
    pub fn from_file_name(name: &str) -> (hint: FormatHint)
        ensures
            hint == hint_of(name.spec_bytes()),
    {
        let bytes = name.as_bytes();
        if ends_with(bytes, 0x73, 0x6b, 0x6e) {
            FormatHint::Skn
        } else if ends_with(bytes, 0x73, 0x63, 0x62) {
            FormatHint::Scb
        } else if ends_with(bytes, 0x73, 0x63, 0x6f) {
            FormatHint::Sco
        } else if ends_with(bytes, 0x64, 0x64, 0x73) {
            FormatHint::Dds
        } else if ends_with(bytes, 0x74, 0x65, 0x78) {
            FormatHint::Tex
        } else {
            FormatHint::Unknown
        }
    }
}

/// Chooses the layout in which a mesh is decoded.
pub fn choose_mesh_format(hint: FormatHint, bytes: &[u8]) -> (format: Option<MeshFormat>)
    ensures
        format == mesh_format_for(hint, bytes@),
{
    match hint {
        FormatHint::Skn => Some(MeshFormat::Skn),
        FormatHint::Scb => Some(MeshFormat::Scb),
        FormatHint::Sco => Some(MeshFormat::Sco),
        _ => sniff_mesh(bytes),
    }
}

/// Chooses the container in which a texture is decoded.
pub fn choose_texture_format(hint: FormatHint, bytes: &[u8]) -> (format: Option<TextureFormat>)
    ensures
        format == texture_format_for(hint, bytes@),
{
    match hint {
        FormatHint::Dds => Some(TextureFormat::Dds),
        FormatHint::Tex => Some(TextureFormat::Tex),
        _ => sniff_texture(bytes),
    }
}

/// Decides the steps that the options ask for on a mesh.
pub fn plan_mesh(mesh: &Mesh, options: &ImportOptions) -> (plan: MeshPlan)
    ensures
        plan == mesh_plan(mesh@, *options),
{
    MeshPlan {
        normals: !mesh.has_normals() || options.generate_normals,
        tangents: options.generate_tangents && mesh.has_uvs(),
        scale: if options.has_positive_scale() {
            Some(options.scale)
        } else {
            None
        },
    }
}

/// Decodes a mesh and decides the steps on it.
pub fn import_mesh(bytes: &[u8], hint: FormatHint, options: &ImportOptions) -> (result: Result<ImportedMesh, ImportError>)
    ensures
        match result {
            Ok(done) => imported(bytes@, AssetKind::Mesh, hint, *options) == Ok::<
                Outcome,
                ImportError,
            >(Outcome::Mesh(done.mesh@, done.plan)) && done.mesh.wf(),
            Err(e) => imported(bytes@, AssetKind::Mesh, hint, *options) == Err::<
                Outcome,
                ImportError,
            >(e),
        },
{
    if bytes.len() == 0 {
        return Err(ImportError::MissingInput);
    }
    let format = match choose_mesh_format(hint, bytes) {
        None => {
            return Err(ImportError::InvalidMagic);
        },
        Some(format) => format,
    };
    match decode_mesh(bytes, format) {
        Err(e) => Err(e),
        Ok(mesh) => {
            let plan = plan_mesh(&mesh, options);
            Ok(ImportedMesh { mesh, plan })
        },
    }
}

/// A texture that was cut out of a buffer whose length, taken eight times,
/// can be addressed has pixels and blocks that can be addressed.
pub proof fn lemma_decoded_fits(format: PixelFormat, w: nat, h: nat, limit: nat)
    requires
        w >= 1,
        h >= 1,
        8 * level_bytes(format, w, h) <= limit,
    ensures
        format is Block ==> 4 * w * h <= limit && 16 * w <= limit,
        16 * blocks(w) * blocks(h) <= limit,
{
    let bw = blocks(w);
    let bh = blocks(h);
    if format is Block {
        let bb = block_bytes(format->0);
        assert(bw * bh * bb >= 8 * bw) by (nonlinear_arith)
            requires
                bh >= 1,
                bb >= 8,
                bw >= 0,
        ;
    }
    assert(4 * w * h <= 64 * (bw * bh)) by (nonlinear_arith)
        requires
            0 <= w <= 4 * bw,
            0 <= h <= 4 * bh,
    ;
    assert(16 * bw * bh == 16 * (bw * bh) && 16 * (bw * bh) <= 4 * (4 * w * h)) by (nonlinear_arith)
        requires
            0 <= bw <= w,
            0 <= bh <= h,
    ;
}

/// Decodes a texture and applies the transforms that the options ask for.
///
/// The buffer's length, taken eight times, must be a length that a buffer
/// can have: that is the room that the pixels of a texture in blocks can
/// take.
pub fn import_texture(bytes: &[u8], hint: FormatHint, options: &ImportOptions) -> (result: Result<Texture, ImportError>)
    requires
        8 * bytes@.len() <= isize::MAX,
    ensures
        match result {
            Ok(done) => imported(bytes@, AssetKind::Texture, hint, *options) == Ok::<
                Outcome,
                ImportError,
            >(Outcome::Texture(done@)) && done.wf(),
            Err(e) => imported(bytes@, AssetKind::Texture, hint, *options) == Err::<
                Outcome,
                ImportError,
            >(e),
        },
        result matches Ok(done) ==> done.color_space == color_space_for(*options)
            && (options.generate_mipmaps ==> done.complete()),
{
    if bytes.len() == 0 {
        return Err(ImportError::MissingInput);
    }
    let format = match choose_texture_format(hint, bytes) {
        None => {
            return Err(ImportError::InvalidMagic);
        },
        Some(format) => format,
    };
    match decode_texture(bytes, format) {
        Err(e) => Err(e),
        Ok(texture) => {
            proof {
                lemma_decoded_fits(
                    texture.format,
                    texture.width as nat,
                    texture.height as nat,
                    isize::MAX as nat,
                );
            }
            Ok(process_texture(texture, options))
        },
    }
}

/// Imports one asset.
///
/// An empty buffer is refused as `MissingInput`; a buffer whose layout
/// neither the hint nor its first bytes tell, as `InvalidMagic`. Every
/// other failure is the decoder's.
pub fn import(bytes: &[u8], kind: AssetKind, hint: FormatHint, options: &ImportOptions) -> (result: Result<Asset, ImportError>)
    requires
        kind == AssetKind::Texture ==> 8 * bytes@.len() <= isize::MAX,
    ensures
        agrees(result, imported(bytes@, kind, hint, *options)),
        result matches Ok(Asset::Mesh(done)) ==> done.mesh.wf(),
        result matches Ok(Asset::Texture(done)) ==> done.wf() && done.color_space
            == color_space_for(*options) && (options.generate_mipmaps ==> done.complete()),
{
    match kind {
        AssetKind::Mesh => match import_mesh(bytes, hint, options) {
            Err(e) => Err(e),
            Ok(done) => Ok(Asset::Mesh(done)),
        },
        AssetKind::Texture => match import_texture(bytes, hint, options) {
            Err(e) => Err(e),
            Ok(done) => Ok(Asset::Texture(done)),
        },
    }
}

/// One asset of a batch: its bytes, its kind, and what is known of its
/// layout.
pub struct ImportRequest {
    pub bytes: Vec<u8>,
    pub kind: AssetKind,
    pub hint: FormatHint,
}

/// Imports the assets of a batch, each for itself.
///
/// The failure of one asset is the outcome of that asset and of no other:
/// the outcomes come in the order of the requests, one for each.
pub fn import_batch(requests: &Vec<ImportRequest>, options: &ImportOptions) -> (outcomes: Vec<Result<Asset, ImportError>>)
    requires
        forall|i: int|
            0 <= i < requests@.len() && (#[trigger] requests@[i]).kind == AssetKind::Texture ==> 8
                * requests@[i].bytes@.len() <= isize::MAX,
    ensures
        outcomes@.len() == requests@.len(),
        forall|i: int|
            0 <= i < requests@.len() ==> agrees(
                #[trigger] outcomes@[i],
                imported(requests@[i].bytes@, requests@[i].kind, requests@[i].hint, *options),
            ),
{
    let mut outcomes: Vec<Result<Asset, ImportError>> = Vec::new();
    let mut i: usize = 0;
    while i < requests.len()
        invariant
            i <= requests@.len(),
            outcomes@.len() == i,
            forall|k: int|
                0 <= k < requests@.len() && (#[trigger] requests@[k]).kind == AssetKind::Texture
                    ==> 8 * requests@[k].bytes@.len() <= isize::MAX,
            forall|k: int|
                0 <= k < i ==> agrees(
                    #[trigger] outcomes@[k],
                    imported(requests@[k].bytes@, requests@[k].kind, requests@[k].hint, *options),
                ),
        decreases requests@.len() - i,
    {
        let request = &requests[i];
        let outcome = import(request.bytes.as_slice(), request.kind, request.hint, options);
        outcomes.push(outcome);
        i += 1;
    }
    outcomes
}

/// What the import of an entry of an archive yields: the failure of the
/// read, or what the import of the entry's content yields.
pub open spec fn imported_entry(data: Seq<u8>, entry: Entry, kind: AssetKind, hint: FormatHint, options: ImportOptions) -> Result<Outcome, ImportError> {
    match read_result(data, entry) {
        Err(e) => Err(e),
        Ok(content) => imported(content, kind, hint, options),
    }
}

/// Reads an entry of an archive and imports its content.
///
/// For a texture the expanded length of the entry, taken eight times, must
/// be a length that a buffer can have.
pub fn import_entry(archive: &Archive, entry: &Entry, kind: AssetKind, hint: FormatHint, options: &ImportOptions) -> (result: Result<Asset, ImportError>)
    requires
        kind == AssetKind::Texture ==> 8 * entry.uncompressed_len <= isize::MAX,
    ensures
        agrees(result, imported_entry(archive.data@, *entry, kind, hint, *options)),
        result matches Ok(Asset::Mesh(done)) ==> done.mesh.wf(),
        result matches Ok(Asset::Texture(done)) ==> done.wf(),
{
    match archive.read(entry) {
        Err(e) => Err(e),
        Ok(content) => import(content.as_slice(), kind, hint, options),
    }
}

/// Tests whether a buffer of `len` bytes is short enough for the import of
/// a texture: whether eight times its length is a length that a buffer can
/// have.
pub fn can_hold_pixels(len: usize) -> (ok: bool)
    ensures
        ok == (8 * len <= isize::MAX),
{
    len <= isize::MAX as usize / 8
}

} // verus!
