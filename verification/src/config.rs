//! The settings that the viewer reads.

use vstd::prelude::*;

use crate::text::texts;

verus! {

/// How diffs are rendered: the tool to pipe them through, and its arguments.
pub struct DiffConfig {
    pub tool: String,
    pub args: Vec<String>,
}

/// The texts of a `DiffConfig`.
pub struct DiffConfigView {
    pub tool: Seq<char>,
    pub args: Seq<Seq<char>>,
}

impl View for DiffConfig {
    type V = DiffConfigView;

    open spec fn view(&self) -> DiffConfigView {
        DiffConfigView { tool: self.tool@, args: texts(self.args@) }
    }
}

/// The editor to open files in: the program, and its arguments before the file.
pub struct EditorConfig {
    pub command: String,
    pub args: Vec<String>,
}

/// The texts of an `EditorConfig`.
pub struct EditorConfigView {
    pub command: Seq<char>,
    pub args: Seq<Seq<char>>,
}

impl View for EditorConfig {
    type V = EditorConfigView;

    open spec fn view(&self) -> EditorConfigView {
        EditorConfigView { command: self.command@, args: texts(self.args@) }
    }
}

/// All settings.
pub struct Config {
    pub diff: DiffConfig,
    pub editor: EditorConfig,
}

/// The texts of a `Config`.
pub struct ConfigView {
    pub diff: DiffConfigView,
    pub editor: EditorConfigView,
}

impl View for Config {
    type V = ConfigView;

    open spec fn view(&self) -> ConfigView {
        ConfigView { diff: self.diff@, editor: self.editor@ }
    }
}

/// The view of the settings holds each of them.
pub proof fn law_config_view(config: Config)
    ensures
        config@.diff.tool == config.diff.tool@,
        config@.diff.args == texts(config.diff.args@),
        config@.editor.command == config.editor.command@,
        config@.editor.args == texts(config.editor.args@),
{
}

} // verus!
