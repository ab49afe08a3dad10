//! Discovery of installed application bundles: manifest fields, icon
//! selection and encoding, and the deduplicated, name-ordered catalog.

pub mod lexical;
pub mod paths;
pub mod record;
pub mod catalog;
pub mod icon;
pub mod manifest;
pub mod bundle;
pub mod shell;
