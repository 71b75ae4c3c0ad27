//! Language-aware file classification and traversal.
//!
//! A fixed registry of languages, each with default file-extension globs, can
//! be extended with per-language override patterns. From roots, overrides and
//! an optional language restriction the crate builds a parallel directory
//! walker over the `ignore` crate, plus a reverse lookup from a file path to
//! the language that claims it.

pub mod lang;
pub mod matcher;
pub mod overrides;
pub mod walk;

pub use lang::Error;
pub use lang::Lang;
pub use matcher::LangOption;
pub use overrides::LanguageGlobs;
pub use walk::build_files;
