//! Terminal palette planning and template-based export.
//!
//! The crate decides how the sixteen palette slots derive from a theme's base
//! colours, and renders a finished palette into text by substituting
//! placeholders in an exporter's template.

pub mod catalog;
pub mod export_laws;
pub mod exporter;
pub mod hex;
pub mod layout;
pub mod name_map;
pub mod output;
pub mod palette;
pub mod space;
pub mod template;
pub mod text;

pub use exporter::Exporter;
pub use output::Output;
pub use space::SpaceSerDe;
