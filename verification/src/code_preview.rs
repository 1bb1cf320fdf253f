//! The code preview panel's state: the code last generated and the
//! preferences it was generated with. How far the panel is scrolled is kept
//! by the panel that draws it.

use crate::codegen::{GeneratedCode, TargetLanguage};
use crate::text::{count_lines, line_total};
use vstd::prelude::*;

verus! {

/// Code preview state.
#[derive(Debug)]
pub struct CodePreviewState {
    /// Generated code
    pub code: Option<GeneratedCode>,
    /// Selected target language
    pub target_language: TargetLanguage,
    /// Whether auto-generate is enabled
    pub auto_generate: bool,
}

/// The text the preview shows: the generated code, or a placeholder
/// comment while there is none.
pub open spec fn preview_text(code: Option<GeneratedCode>) -> Seq<char> {
    match code {
        Some(g) => g.code@,
        None => "// No code generated yet"@,
    }
}

impl Clone for CodePreviewState {
    fn clone(&self) -> (r: Self)
        ensures
            match (r.code, self.code) {
                (Some(a), Some(b)) => a.language == b.language && a.code == b.code && a.entry_point == b.entry_point
                    && a.imports@ == b.imports@ && a.warnings@ == b.warnings@,
                (None, None) => true,
                _ => false,
            },
            preview_text(r.code) == preview_text(self.code),
            r.target_language == self.target_language,
            r.auto_generate == self.auto_generate,
    {
        CodePreviewState {
            code: match &self.code {
                Some(g) => Some(g.clone()),
                None => None,
            },
            target_language: self.target_language,
            auto_generate: self.auto_generate,
        }
    }
}

impl Default for CodePreviewState {
    /// No code yet, Python, generating automatically.
    fn default() -> (r: Self)
        ensures
            r.code is None,
            r.target_language == TargetLanguage::Python,
            r.auto_generate,
    {
        CodePreviewState { code: None, target_language: TargetLanguage::Python, auto_generate: true }
    }
}

impl CodePreviewState {
    /// Create with generated code.
    pub fn with_code(code: GeneratedCode) -> (r: Self)
        ensures
            r.code == Some(code),
            r.target_language == TargetLanguage::Python,
            r.auto_generate,
    {
        CodePreviewState { code: Some(code), target_language: TargetLanguage::Python, auto_generate: true }
    }

    /// Get the code text.
    pub fn code_text(&self) -> (r: &str)
        ensures
            r@ == preview_text(self.code),
    {
        match &self.code {
            Some(g) => g.code.as_str(),
            None => "// No code generated yet",
        }
    }

    /// Get line count.
    pub fn line_count(&self) -> (r: usize)
        ensures
            r == line_total(preview_text(self.code)),
    {
        count_lines(self.code_text())
    }
}

} // verus!
