use ltk_godot::importers::{ImportOption, MeshImporter, OptionValue, TextureImporter};
use ltk_godot::options::{CompressionMode, ImportOptions};
use ltk_godot::pipeline::FormatHint;

fn names(options: &[ImportOption]) -> Vec<&'static str> {
    options.iter().map(|o| o.name).collect()
}

#[test]
fn the_mesh_importer_names_itself() {
    let importer = MeshImporter::new();
    assert_eq!(importer.get_importer_name(), "ltk.mesh");
    assert_eq!(importer.get_visible_name(), "League of Legends Mesh");
    assert_eq!(importer.get_resource_type(), "Mesh");
    assert_eq!(importer.get_recognized_extensions(), vec!["skn", "scb", "sco"]);
    assert_eq!(importer.get_save_extension(), "mesh");
    assert_eq!(importer.get_preset_count(), 1);
    assert_eq!(importer.get_preset_name(0), "Default");
    assert_eq!(importer.get_preset_name(1), "Unknown");
    assert_eq!(importer.get_preset_name(-1), "Unknown");
    assert_eq!(importer.get_import_order(), 0);
    assert!(importer.get_option_visibility("scale"));
    assert!(importer.get_option_visibility("anything"));
}

#[test]
fn the_mesh_importer_lists_its_options() {
    let options = MeshImporter::new().get_import_options(0);
    assert_eq!(names(&options), vec!["scale", "generate_normals", "generate_tangents"]);
    assert_eq!(options[0].default_value, OptionValue::Float(1.0f64.to_bits()));
    assert_eq!(options[1].default_value, OptionValue::Bool(false));
    assert_eq!(options[2].default_value, OptionValue::Bool(true));
    assert!(options.iter().all(|o| o.property_hint == 0 && o.hint_string.is_none()));
    assert_eq!(MeshImporter::new().get_import_options(7), options);
}

#[test]
fn the_texture_importer_names_itself() {
    let importer = TextureImporter::new();
    assert_eq!(importer.get_importer_name(), "ltk.texture");
    assert_eq!(importer.get_visible_name(), "League of Legends Texture");
    assert_eq!(importer.get_resource_type(), "CompressedTexture2D");
    assert_eq!(importer.get_recognized_extensions(), vec!["tex"]);
    assert_eq!(importer.get_save_extension(), "ctex");
    assert_eq!(importer.get_preset_count(), 2);
    assert_eq!(importer.get_preset_name(0), "2D Texture");
    assert_eq!(importer.get_preset_name(1), "3D Texture");
    assert_eq!(importer.get_preset_name(2), "Unknown");
    assert_eq!(importer.get_import_order(), 0);
    assert!(importer.get_option_visibility("process/srgb"));
}

#[test]
fn the_texture_importer_lists_its_options() {
    let importer = TextureImporter::new();
    let flat = importer.get_import_options(0);
    assert_eq!(
        names(&flat),
        vec![
            "compress/mode",
            "mipmaps/generate",
            "process/srgb",
            "process/fix_alpha_border",
            "process/normal_map"
        ]
    );
    assert_eq!(flat[0].default_value, OptionValue::Int(0));
    assert_eq!(flat[0].property_hint, 2);
    assert_eq!(flat[0].hint_string, Some("Lossless,Lossy,Uncompressed"));
    assert_eq!(flat[1].default_value, OptionValue::Bool(true));
    assert_eq!(flat[2].default_value, OptionValue::Bool(true));
    assert_eq!(flat[3].default_value, OptionValue::Bool(true));
    assert_eq!(flat[4].default_value, OptionValue::Bool(false));
    assert!(flat[1..].iter().all(|o| o.property_hint == 0 && o.hint_string.is_none()));
    let volume = importer.get_import_options(1);
    assert_eq!(volume[2].default_value, OptionValue::Bool(false));
    assert_eq!(volume[0], flat[0]);
    assert_eq!(volume[1], flat[1]);
    assert_eq!(volume[3], flat[3]);
    assert_eq!(volume[4], flat[4]);
}

#[test]
fn options_that_are_not_given_take_their_defaults() {
    let defaults = ImportOptions::new();
    assert_eq!(defaults, ImportOptions::default());
    assert_eq!(defaults.scale, 1.0f64.to_bits());
    assert!(!defaults.generate_normals);
    assert!(defaults.generate_tangents);
    assert_eq!(defaults.compression_mode, CompressionMode::Lossless);
    assert!(defaults.generate_mipmaps);
    assert!(defaults.srgb);
    assert!(defaults.fix_alpha_border);
    assert!(!defaults.normal_map);
    let mesh = MeshImporter::new();
    assert_eq!(mesh.resolve_options(None, None, None), defaults);
    assert_eq!(
        mesh.resolve_options(Some(2.5f64.to_bits()), Some(true), Some(false)),
        ImportOptions {
            scale: 2.5f64.to_bits(),
            generate_normals: true,
            generate_tangents: false,
            ..defaults
        }
    );
    let texture = TextureImporter::new();
    assert_eq!(texture.resolve_options(None, None, None, None, None), defaults);
    assert_eq!(
        texture.resolve_options(Some(2), Some(false), Some(false), Some(false), Some(true)),
        ImportOptions {
            compression_mode: CompressionMode::Uncompressed,
            generate_mipmaps: false,
            srgb: false,
            fix_alpha_border: false,
            normal_map: true,
            ..defaults
        }
    );
    assert_eq!(CompressionMode::from_index(0), CompressionMode::Lossless);
    assert_eq!(CompressionMode::from_index(1), CompressionMode::Lossy);
    assert_eq!(CompressionMode::from_index(2), CompressionMode::Uncompressed);
    assert_eq!(CompressionMode::from_index(3), CompressionMode::Lossless);
    assert_eq!(CompressionMode::from_index(-1), CompressionMode::Lossless);
}

#[test]
fn the_importers_import() {
    let mut tex = vec![b'T', b'E', b'X', 0, 1, 0, 1, 0, 20, 1, 0, 0];
    tex.extend_from_slice(&[9, 8, 7, 255]);
    let texture = TextureImporter::new().import(&tex, FormatHint::Tex, &ImportOptions::new()).unwrap();
    assert_eq!(texture.levels, vec![vec![9, 8, 7, 255]]);
    let mut sco = vec![b'S', b'C', b'O', 0, 1, 0, 0, 0, 0, 0];
    sco.extend_from_slice(&[0u8; 20]);
    let mesh = MeshImporter::new().import(&sco, FormatHint::Unknown, &ImportOptions::new()).unwrap();
    assert_eq!(mesh.mesh.vertices.len(), 0);
    assert!(MeshImporter::new().import(&tex, FormatHint::Unknown, &ImportOptions::new()).is_err());
}
