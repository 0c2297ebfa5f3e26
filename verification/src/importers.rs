//! The two importers as the editor sees them: their names, the files they
//! take, their presets, their options, and the import itself.

use vstd::prelude::*;
use crate::error::ImportError;
use crate::options::{default_options, mode_of, CompressionMode, ImportOptions, SCALE_ONE};
use crate::pipeline::{
    import_mesh, import_texture, imported, AssetKind, FormatHint, ImportedMesh, Outcome,
};
use crate::texture::Texture;
use crate::transform::color_space_for;

verus! {

/// The default of an option.
#[derive(Clone, Copy, Debug, PartialEq, Eq)]
pub enum OptionValue {
    Bool(bool),
    Int(i32),
    /// A number, as the bits of its double-precision form.
    Float(u64),
}

/// An option as it is shown in the editor.
#[derive(Clone, Copy, Debug, PartialEq, Eq)]
pub struct ImportOption {
    pub name: &'static str,
    pub default_value: OptionValue,
    /// 0 for no hint, 2 for a choice among the names of `hint_string`.
    pub property_hint: i32,
    pub hint_string: Option<&'static str>,
}

/// What identifies an option and its default, without the texts.
pub open spec fn same_option(option: ImportOption, name: Seq<char>, default_value: OptionValue, property_hint: i32) -> bool {
    &&& option.name@ == name
    &&& option.default_value == default_value
    &&& option.property_hint == property_hint
}

/// The importer of meshes.
#[derive(Clone, Copy, Debug, PartialEq, Eq)]
pub struct MeshImporter {}

/// The importer of textures.
#[derive(Clone, Copy, Debug, PartialEq, Eq)]
pub struct TextureImporter {}

/// The options of a mesh import, each as given or, where nothing is given,
/// at its default.
pub open spec fn mesh_options(scale: Option<u64>, generate_normals: Option<bool>, generate_tangents: Option<bool>) -> ImportOptions {
    let d = default_options();
    ImportOptions {
        scale: if scale is Some { scale->0 } else { d.scale },
        generate_normals: if generate_normals is Some { generate_normals->0 } else { d.generate_normals },
        generate_tangents: if generate_tangents is Some { generate_tangents->0 } else { d.generate_tangents },
        compression_mode: d.compression_mode,
        generate_mipmaps: d.generate_mipmaps,
        srgb: d.srgb,
        fix_alpha_border: d.fix_alpha_border,
        normal_map: d.normal_map,
    }
}

/// The options of a texture import, each as given or, where nothing is
/// given, at its default.
pub open spec fn texture_options(
    compress_mode: Option<i32>,
    generate_mipmaps: Option<bool>,
    srgb: Option<bool>,
    fix_alpha_border: Option<bool>,
    normal_map: Option<bool>,
) -> ImportOptions {
    let d = default_options();
    ImportOptions {
        scale: d.scale,
        generate_normals: d.generate_normals,
        generate_tangents: d.generate_tangents,
        compression_mode: if compress_mode is Some { mode_of(compress_mode->0) } else { d.compression_mode },
        generate_mipmaps: if generate_mipmaps is Some { generate_mipmaps->0 } else { d.generate_mipmaps },
        srgb: if srgb is Some { srgb->0 } else { d.srgb },
        fix_alpha_border: if fix_alpha_border is Some { fix_alpha_border->0 } else { d.fix_alpha_border },
        normal_map: if normal_map is Some { normal_map->0 } else { d.normal_map },
    }
}

impl MeshImporter {
    /// The importer.
    pub fn new() -> (importer: MeshImporter)
        ensures
            importer == (MeshImporter {  }),
    {
        MeshImporter {  }
    }

    /// The name under which the importer is registered.
    pub fn get_importer_name(&self) -> (name: &'static str)
        ensures
            name@ == "ltk.mesh"@,
    {
        "ltk.mesh"
    }

    /// The name that the editor shows.
    pub fn get_visible_name(&self) -> (name: &'static str)
        ensures
            name@ == "League of Legends Mesh"@,
    {
        "League of Legends Mesh"
    }

    /// The type of resource that an import makes.
    pub fn get_resource_type(&self) -> (name: &'static str)
        ensures
            name@ == "Mesh"@,
    {
        "Mesh"
    }

    /// The extensions of the files that the importer takes.
    pub fn get_recognized_extensions(&self) -> (extensions: Vec<&'static str>)
        ensures
            extensions@.len() == 3,
            extensions@[0]@ == "skn"@,
            extensions@[1]@ == "scb"@,
            extensions@[2]@ == "sco"@,
    {
        let mut extensions: Vec<&'static str> = Vec::new();
        extensions.push("skn");
        extensions.push("scb");
        extensions.push("sco");
        extensions
    }

    /// The extension of the file that an import is saved to.
    pub fn get_save_extension(&self) -> (name: &'static str)
        ensures
            name@ == "mesh"@,
    {
        "mesh"
    }

    /// The number of presets.
    pub fn get_preset_count(&self) -> (count: i32)
        ensures
            count == 1,
    {
        1
    }

    /// The name of a preset.
    pub fn get_preset_name(&self, preset_idx: i32) -> (name: &'static str)
        ensures
            name@ == if preset_idx == 0 {
                "Default"@
            } else {
                "Unknown"@
            },
    {
        if preset_idx == 0 {
            "Default"
        } else {
            "Unknown"
        }
    }

    /// The options that the editor shows, with their defaults: the scale,
    /// whether normals are made, whether tangents are made.
    pub fn get_import_options(&self, preset_idx: i32) -> (options: Vec<ImportOption>)
        ensures
            options@.len() == 3,
            same_option(options@[0], "scale"@, OptionValue::Float(SCALE_ONE), 0),
            same_option(options@[1], "generate_normals"@, OptionValue::Bool(false), 0),
            same_option(options@[2], "generate_tangents"@, OptionValue::Bool(true), 0),
            forall|i: int| 0 <= i < 3 ==> (#[trigger] options@[i]).hint_string is None,
    {
        let mut options: Vec<ImportOption> = Vec::new();
        options.push(
            ImportOption {
                name: "scale",
                default_value: OptionValue::Float(SCALE_ONE),
                property_hint: 0,
                hint_string: None,
            },
        );
        options.push(
            ImportOption {
                name: "generate_normals",
                default_value: OptionValue::Bool(false),
                property_hint: 0,
                hint_string: None,
            },
        );
        options.push(
            ImportOption {
                name: "generate_tangents",
                default_value: OptionValue::Bool(true),
                property_hint: 0,
                hint_string: None,
            },
        );
        options
    }

    /// Whether an option is shown: every one is.
    pub fn get_option_visibility(&self, option_name: &str) -> (visible: bool)
        ensures
            visible,
    {
        true
    }

    /// The importer's place in the order of imports.
    pub fn get_import_order(&self) -> (order: i32)
        ensures
            order == 0,
    {
        0
    }

    /// The options of an import, each as given or at its default.
    pub fn resolve_options(
        &self,
        scale: Option<u64>,
        generate_normals: Option<bool>,
        generate_tangents: Option<bool>,
    ) -> (options: ImportOptions)
        ensures
            options == mesh_options(scale, generate_normals, generate_tangents),
    {
        let d = ImportOptions::new();
        ImportOptions {
            scale: match scale {
                Some(v) => v,
                None => d.scale,
            },
            generate_normals: match generate_normals {
                Some(v) => v,
                None => d.generate_normals,
            },
            generate_tangents: match generate_tangents {
                Some(v) => v,
                None => d.generate_tangents,
            },
            compression_mode: d.compression_mode,
            generate_mipmaps: d.generate_mipmaps,
            srgb: d.srgb,
            fix_alpha_border: d.fix_alpha_border,
            normal_map: d.normal_map,
        }
    }

    /// Imports the mesh that a file holds.
    pub fn import(&self, bytes: &[u8], hint: FormatHint, options: &ImportOptions) -> (result: Result<ImportedMesh, ImportError>)
        ensures
            match result {
                Ok(done) => imported(bytes@, AssetKind::Mesh, hint, *options) == Ok::<
                    Outcome,
                    ImportError,
                >(Outcome::Mesh(done.mesh@, done.plan)) && done.mesh.wf(),
                Err(e) => imported(bytes@, AssetKind::Mesh, hint, *options) == Err::<
                    Outcome,
                    ImportError,
                >(e),
            },
    {
        import_mesh(bytes, hint, options)
    }
}

impl TextureImporter {
    /// The importer.
    pub fn new() -> (importer: TextureImporter)
        ensures
            importer == (TextureImporter {  }),
    {
        TextureImporter {  }
    }

    /// The name under which the importer is registered.
    pub fn get_importer_name(&self) -> (name: &'static str)
        ensures
            name@ == "ltk.texture"@,
    {
        "ltk.texture"
    }

    /// The name that the editor shows.
    pub fn get_visible_name(&self) -> (name: &'static str)
        ensures
            name@ == "League of Legends Texture"@,
    {
        "League of Legends Texture"
    }

    /// The type of resource that an import makes.
    pub fn get_resource_type(&self) -> (name: &'static str)
        ensures
            name@ == "CompressedTexture2D"@,
    {
        "CompressedTexture2D"
    }

    /// The extensions of the files that the importer takes.
    pub fn get_recognized_extensions(&self) -> (extensions: Vec<&'static str>)
        ensures
            extensions@.len() == 1,
            extensions@[0]@ == "tex"@,
    {
        let mut extensions: Vec<&'static str> = Vec::new();
        extensions.push("tex");
        extensions
    }

    /// The extension of the file that an import is saved to.
    pub fn get_save_extension(&self) -> (name: &'static str)
        ensures
            name@ == "ctex"@,
    {
        "ctex"
    }

    /// The number of presets.
    pub fn get_preset_count(&self) -> (count: i32)
        ensures
            count == 2,
    {
        2
    }

    /// The name of a preset.
    pub fn get_preset_name(&self, preset_idx: i32) -> (name: &'static str)
        ensures
            name@ == if preset_idx == 0 {
                "2D Texture"@
            } else if preset_idx == 1 {
                "3D Texture"@
            } else {
                "Unknown"@
            },
    {
        if preset_idx == 0 {
            "2D Texture"
        } else if preset_idx == 1 {
            "3D Texture"
        } else {
            "Unknown"
        }
    }

    /// The options that the editor shows, with their defaults for a preset:
    /// display gamma is the default of the first preset only.
    pub fn get_import_options(&self, preset_idx: i32) -> (options: Vec<ImportOption>)
        ensures
            options@.len() == 5,
            same_option(options@[0], "compress/mode"@, OptionValue::Int(0), 2),
            options@[0].hint_string is Some,
            options@[0].hint_string->0@ == "Lossless,Lossy,Uncompressed"@,
            same_option(options@[1], "mipmaps/generate"@, OptionValue::Bool(true), 0),
            same_option(options@[2], "process/srgb"@, OptionValue::Bool(preset_idx == 0), 0),
            same_option(options@[3], "process/fix_alpha_border"@, OptionValue::Bool(true), 0),
            same_option(options@[4], "process/normal_map"@, OptionValue::Bool(false), 0),
            forall|i: int| 1 <= i < 5 ==> (#[trigger] options@[i]).hint_string is None,
    {
        let mut options: Vec<ImportOption> = Vec::new();
        options.push(
            ImportOption {
                name: "compress/mode",
                default_value: OptionValue::Int(0),
                property_hint: 2,
                hint_string: Some("Lossless,Lossy,Uncompressed"),
            },
        );
        options.push(
            ImportOption {
                name: "mipmaps/generate",
                default_value: OptionValue::Bool(true),
                property_hint: 0,
                hint_string: None,
            },
        );
        options.push(
            ImportOption {
                name: "process/srgb",
                default_value: OptionValue::Bool(preset_idx == 0),
                property_hint: 0,
                hint_string: None,
            },
        );
        options.push(
            ImportOption {
                name: "process/fix_alpha_border",
                default_value: OptionValue::Bool(true),
                property_hint: 0,
                hint_string: None,
            },
        );
        options.push(
            ImportOption {
                name: "process/normal_map",
                default_value: OptionValue::Bool(false),
                property_hint: 0,
                hint_string: None,
            },
        );
        options
    }

    /// Whether an option is shown: every one is.
    pub fn get_option_visibility(&self, option_name: &str) -> (visible: bool)
        ensures
            visible,
    {
        true
    }

    /// The importer's place in the order of imports.
    pub fn get_import_order(&self) -> (order: i32)
        ensures
            order == 0,
    {
        0
    }

    /// The options of an import, each as given or at its default.
    pub fn resolve_options(
        &self,
        compress_mode: Option<i32>,
        generate_mipmaps: Option<bool>,
        srgb: Option<bool>,
        fix_alpha_border: Option<bool>,
        normal_map: Option<bool>,
    ) -> (options: ImportOptions)
        ensures
            options == texture_options(
                compress_mode,
                generate_mipmaps,
                srgb,
                fix_alpha_border,
                normal_map,
            ),
    {
        let d = ImportOptions::new();
        ImportOptions {
            scale: d.scale,
            generate_normals: d.generate_normals,
            generate_tangents: d.generate_tangents,
            compression_mode: match compress_mode {
                Some(v) => CompressionMode::from_index(v),
                None => d.compression_mode,
            },
            generate_mipmaps: match generate_mipmaps {
                Some(v) => v,
                None => d.generate_mipmaps,
            },
            srgb: match srgb {
                Some(v) => v,
                None => d.srgb,
            },
            fix_alpha_border: match fix_alpha_border {
                Some(v) => v,
                None => d.fix_alpha_border,
            },
            normal_map: match normal_map {
                Some(v) => v,
                None => d.normal_map,
            },
        }
    }

    /// Imports the texture that a file holds.
    ///
    /// The buffer's length, taken eight times, must be a length that a
    /// buffer can have.
    pub fn import(&self, bytes: &[u8], hint: FormatHint, options: &ImportOptions) -> (result: Result<Texture, ImportError>)
        requires
            8 * bytes@.len() <= isize::MAX,
        ensures
            match result {
                Ok(done) => imported(bytes@, AssetKind::Texture, hint, *options) == Ok::<
                    Outcome,
                    ImportError,
                >(Outcome::Texture(done@)) && done.wf(),
                Err(e) => imported(bytes@, AssetKind::Texture, hint, *options) == Err::<
                    Outcome,
                    ImportError,
                >(e),
            },
            result matches Ok(done) ==> done.color_space == color_space_for(*options)
                && (options.generate_mipmaps ==> done.complete()),
    {
        import_texture(bytes, hint, options)
    }
}

} // verus!
