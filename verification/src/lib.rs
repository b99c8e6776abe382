//! Rendering of untrusted markdown to HTML that is safe to embed in a page.
//!
//! The crate fixes one allowlist policy for documentation pages, decides
//! whether a base location may be used to anchor relative links, and states
//! exactly what is handed to the markdown converter and to the HTML cleaner.

pub mod text;
pub mod resolver;
pub mod trust;
pub mod policy;
pub mod classes;
pub mod markdown;

pub use markdown::{markdown_to_html, MarkdownRenderer};
