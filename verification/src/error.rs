//! The error taxonomy of the renderer. Every failure aborts the run;
//! each variant carries the language code (and, for render failures,
//! the template name) it is attributable to.

use vstd::prelude::*;

verus! {

/// Why a build failed. No variant is recovered from internally.
#[derive(Debug)]
pub enum SiteError {
    /// The configured default language has no catalog entry.
    DefaultLangMissing { code: String },
    /// A language data file could not be parsed as structured data.
    LangParse { code: String, message: String },
    /// The language data could not become a template context
    /// (it is not a map-like value).
    ContextBuild { code: String, message: String },
    /// A page template failed to render for one language.
    Render { code: String, template: String, message: String },
}

} // verus!
