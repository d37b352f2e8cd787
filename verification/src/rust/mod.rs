//! Rust support: the Cargo layout as path algebra over a project's
//! packages and files, the manifests that declare the packages, what a
//! parse reports of a file, and the surgery that spells `use` paths and
//! `mod` lines.

pub mod facts;
pub mod layout;
pub mod manifest;
pub mod surgery;
