pub mod preset;

use crate::config::preset::CompressionPreset;
use vstd::prelude::*;

verus! {

/// The application's settings.
#[derive(Debug, Clone)]
pub struct AppConfig {
    /// Interface language.
    pub language: String,
    /// Colour theme.
    pub theme: Theme,
    /// Where compressed files go.
    pub output_dir: OutputDir,
    /// Whether the original file is overwritten.
    pub overwrite: bool,
    /// Suffix added to the names of compressed files.
    pub suffix: String,
    /// Name of the preset used by default.
    pub default_preset: String,
    /// The user's own presets.
    pub presets: Vec<CompressionPreset>,
}

#[derive(Debug, Clone, Copy, PartialEq, Eq, Structural)]
pub enum Theme {
    Light,
    Dark,
    System,
}

#[derive(Debug, Clone)]
pub enum OutputDir {
    /// Next to the input file.
    SameAsInput,
    /// In the given directory.
    Custom(String),
}

impl Default for AppConfig {
    /// Chinese interface, system theme, output next to the input with the suffix
    /// "_compressed", no overwriting, the web preset, no presets of the user's.
    fn default() -> (r: Self)
        ensures
            r.language@ == "zh-CN"@,
            r.theme == Theme::System,
            r.output_dir is SameAsInput,
            !r.overwrite,
            r.suffix@ == "_compressed"@,
            r.default_preset@ == "web_optimized"@,
            r.presets@.len() == 0,
    {
        AppConfig {
            language: String::from_str("zh-CN"),
            theme: Theme::System,
            output_dir: OutputDir::SameAsInput,
            overwrite: false,
            suffix: String::from_str("_compressed"),
            default_preset: String::from_str("web_optimized"),
            presets: Vec::new(),
        }
    }
}

} // verus!
