use vstd::prelude::*;

pub mod commands;
pub mod compress;
pub mod contents;
pub mod desktop;
pub mod entries;
pub mod formats;
pub mod integrity;
pub mod laws;
pub mod listing;
pub mod names;
pub mod paths;
pub mod plans;
pub mod properties;
pub mod sources;
pub mod task;
pub mod volumes;
pub mod windows;
pub mod text;

verus! {

} // verus!
