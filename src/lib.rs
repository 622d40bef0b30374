//! Reading the entries of a sitemap `urlset` document.
//!
//! [`xml`] holds a parsed XML document as the plain list of its nodes,
//! [`sitemap`] reads the `<urlset>` entries from it, [`frequency`] the
//! change-frequency tokens, [`diagnostics`] the problems met in the entries,
//! and [`laws`] states what the entries obey.

pub mod diagnostics;
pub mod frequency;
pub mod laws;
pub mod sitemap;
pub mod text;
pub mod xml;
