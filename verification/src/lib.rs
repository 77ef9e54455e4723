//! Verified model layer of a terminal client for coding-agent sessions.

use vstd::prelude::*;

pub mod config;
pub mod config_file;
pub mod driver;
pub mod fuzzy;
pub mod input;
pub mod json;
pub mod model;
pub mod order;
pub mod sets;
pub mod text;
pub mod text_laws;
pub mod toml_doc;
pub mod wire;

verus! {

} // verus!
