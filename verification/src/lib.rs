use vstd::prelude::*;

pub mod text;
pub mod protocol;
pub mod sorting;
pub mod language;
pub mod legacy_shortcut;
pub mod settings;
pub mod assets;
pub mod audio;
pub mod cleanup;
pub mod core_service;
pub mod linux;
pub mod model_runtime;
pub mod models;
pub mod paste;
pub mod permissions;
pub mod prompts;
pub mod windows;

verus! {

} // verus!
