use ltk_godot::plugin::{ImporterKind, LtkEditorPlugin, PluginAction};

#[test]
fn entering_registers_both_importers() {
    let mut plugin = LtkEditorPlugin::new();
    assert!(!plugin.mesh_importer && !plugin.texture_importer);
    let actions = plugin.enter_tree();
    assert_eq!(
        actions,
        vec![
            PluginAction::AddImportPlugin(ImporterKind::Mesh),
            PluginAction::AddImportPlugin(ImporterKind::Texture)
        ]
    );
    assert!(plugin.mesh_importer && plugin.texture_importer);
}

#[test]
fn leaving_removes_what_is_registered() {
    let mut plugin = LtkEditorPlugin::new();
    assert_eq!(plugin.exit_tree(), vec![]);
    plugin.enter_tree();
    assert_eq!(
        plugin.exit_tree(),
        vec![
            PluginAction::RemoveImportPlugin(ImporterKind::Mesh),
            PluginAction::RemoveImportPlugin(ImporterKind::Texture)
        ]
    );
    assert!(!plugin.mesh_importer && !plugin.texture_importer);
    assert_eq!(plugin.exit_tree(), vec![]);
    let mut half = LtkEditorPlugin { mesh_importer: false, texture_importer: true };
    assert_eq!(half.exit_tree(), vec![PluginAction::RemoveImportPlugin(ImporterKind::Texture)]);
}

#[test]
fn the_plugin_has_a_name() {
    assert_eq!(LtkEditorPlugin::new().get_plugin_name(), "LeagueToolkit Importer");
}
