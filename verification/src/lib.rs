//! A multilingual static-site renderer.
//!
//! Given a catalog of per-language data files and a corpus of page
//! templates, the library computes, for every language, the rendered
//! content and the output location of each page: the default language
//! at the site root, every language (the default included) under its
//! own path prefix. All path derivation, link rewriting, catalog
//! filtering and render planning is verified; the template engine and
//! the data-file parser are called through a small trusted surface.

pub mod catalog;
pub mod error;
pub mod links;
pub mod paths;
pub mod render;
pub mod tera_env;
pub mod text;
pub mod toml_data;
