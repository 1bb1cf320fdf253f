//! Settings that hold no measurements: code-generation preferences and the
//! sections of the settings dialog.

use vstd::prelude::*;

verus! {

/// Code generation settings.
#[derive(Debug)]
pub struct CodeGenSettings {
    pub target_language: String,
    pub format_on_generate: bool,
    pub include_comments: bool,
    pub output_directory: String,
}

impl Default for CodeGenSettings {
    fn default() -> (r: Self)
        ensures
            r.target_language@ == "Python"@,
            r.format_on_generate,
            r.include_comments,
            r.output_directory@ == "./output"@,
    {
        CodeGenSettings {
            target_language: String::from_str("Python"),
            format_on_generate: true,
            include_comments: true,
            output_directory: String::from_str("./output"),
        }
    }
}

/// Settings section.
#[derive(Clone, Copy, Debug, PartialEq, Eq, Structural)]
pub enum SettingsSection {
    Editor,
    CodeGeneration,
    Appearance,
    Keybindings,
}

impl SettingsSection {
    pub fn label(&self) -> (r: &'static str)
        ensures
            r@ == match *self {
                SettingsSection::Editor => "Editor"@,
                SettingsSection::CodeGeneration => "Code Generation"@,
                SettingsSection::Appearance => "Appearance"@,
                SettingsSection::Keybindings => "Keybindings"@,
            },
    {
        match self {
            SettingsSection::Editor => "Editor",
            SettingsSection::CodeGeneration => "Code Generation",
            SettingsSection::Appearance => "Appearance",
            SettingsSection::Keybindings => "Keybindings",
        }
    }

    pub fn icon(&self) -> (r: &'static str)
        ensures
            r@ == match *self {
                SettingsSection::Editor => "✎"@,
                SettingsSection::CodeGeneration => "⚡"@,
                SettingsSection::Appearance => "🎨"@,
                SettingsSection::Keybindings => "⌨"@,
            },
    {
        match self {
            SettingsSection::Editor => "✎",
            SettingsSection::CodeGeneration => "⚡",
            SettingsSection::Appearance => "🎨",
            SettingsSection::Keybindings => "⌨",
        }
    }
}

} // verus!
