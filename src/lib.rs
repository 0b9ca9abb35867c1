//! Pins the dependencies of a Python project manifest to the newest versions
//! that the package index reports.

pub mod manifest;
pub mod outside;
pub mod render;
pub mod resolve;
pub mod response;
pub mod specifier;
pub mod toml_source;
pub mod update;

pub use manifest::{
    Dependencies, PypiDeps, RawProject, RawSection, Section, UpdateError,
};
pub use resolve::{FetchState, FetchStep, Resolutions};
pub use response::{registry_url, Config, Info, PypiResp};
pub use specifier::{parse_specifier, render_entry, Dep, Malformed};
pub use update::update_versions;
