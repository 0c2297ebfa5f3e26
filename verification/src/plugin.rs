//! The editor plugin, as the steps it asks its host to take.
//!
//! The plugin holds two importers. It has them registered when it enters
//! the editor's tree and has those removed that are registered when it
//! leaves. What it asks for is returned as a list of actions; the host
//! carries them out.

use vstd::prelude::*;

verus! {

/// One of the two importers of the plugin.
#[derive(Clone, Copy, Debug, PartialEq, Eq)]
pub enum ImporterKind {
    Mesh,
    Texture,
}

/// A step that the plugin asks its host to take.
#[derive(Clone, Copy, Debug, PartialEq, Eq)]
pub enum PluginAction {
    /// Register the importer with the editor.
    AddImportPlugin(ImporterKind),
    /// Remove the importer from the editor.
    RemoveImportPlugin(ImporterKind),
}

/// The plugin: which of its importers are registered.
#[derive(Clone, Copy, Debug, PartialEq, Eq)]
pub struct LtkEditorPlugin {
    pub mesh_importer: bool,
    pub texture_importer: bool,
}

/// The removals that leaving the tree asks for: of the mesh importer, then
/// of the texture importer, each where it is registered.
pub open spec fn removals(plugin: LtkEditorPlugin) -> Seq<PluginAction> {
    (if plugin.mesh_importer {
        seq![PluginAction::RemoveImportPlugin(ImporterKind::Mesh)]
    } else {
        Seq::<PluginAction>::empty()
    }) + (if plugin.texture_importer {
        seq![PluginAction::RemoveImportPlugin(ImporterKind::Texture)]
    } else {
        Seq::<PluginAction>::empty()
    })
}

impl LtkEditorPlugin {
    /// A plugin with no importer registered.
    pub fn new() -> (plugin: LtkEditorPlugin)
        ensures
            !plugin.mesh_importer,
            !plugin.texture_importer,
    {
        LtkEditorPlugin { mesh_importer: false, texture_importer: false }
    }

    /// Enters the editor's tree: both importers are to be registered, the
    /// mesh importer first.
    pub fn enter_tree(&mut self) -> (actions: Vec<PluginAction>)
        ensures
            actions@ == seq![
                PluginAction::AddImportPlugin(ImporterKind::Mesh),
                PluginAction::AddImportPlugin(ImporterKind::Texture),
            ],
            final(self).mesh_importer,
            final(self).texture_importer,
    {
        let mut actions: Vec<PluginAction> = Vec::new();
        actions.push(PluginAction::AddImportPlugin(ImporterKind::Mesh));
        self.mesh_importer = true;
        actions.push(PluginAction::AddImportPlugin(ImporterKind::Texture));
        self.texture_importer = true;
        actions
    }

    /// Leaves the editor's tree: the importers that are registered are to be
    /// removed, and none is registered after.
    pub fn exit_tree(&mut self) -> (actions: Vec<PluginAction>)
        ensures
            actions@ == removals(*old(self)),
            !final(self).mesh_importer,
            !final(self).texture_importer,
    {
        let mut actions: Vec<PluginAction> = Vec::new();
        if self.mesh_importer {
            self.mesh_importer = false;
            actions.push(PluginAction::RemoveImportPlugin(ImporterKind::Mesh));
        }
        if self.texture_importer {
            self.texture_importer = false;
            actions.push(PluginAction::RemoveImportPlugin(ImporterKind::Texture));
        }
        actions
    }

    /// The name of the plugin.
    pub fn get_plugin_name(&self) -> (name: &'static str)
        ensures
            name@ == "LeagueToolkit Importer"@,
    {
        "LeagueToolkit Importer"
    }
}

/// Leaving the tree undoes entering it: every importer that was added is
/// removed, in the order in which it was added.
pub proof fn lemma_exit_undoes_enter(plugin: LtkEditorPlugin)
    requires
        plugin.mesh_importer,
        plugin.texture_importer,
    ensures
        removals(plugin) == seq![
            PluginAction::RemoveImportPlugin(ImporterKind::Mesh),
            PluginAction::RemoveImportPlugin(ImporterKind::Texture),
        ],
{
}

} // verus!
