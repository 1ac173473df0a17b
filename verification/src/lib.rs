//! Photo gallery logic.
use vstd::prelude::*;

pub mod actions;
pub mod app;
pub mod binding;
pub mod cli;
pub mod cluster;
pub mod collection;
pub mod config;
pub mod curve;
pub mod editing;
pub mod embed;
pub mod filters;
pub mod gallery;
pub mod image_cache;
pub mod labels;
pub mod laws;
pub mod order;
pub mod overlay;
pub mod panels;
pub mod pixels;
pub mod scalar;
pub mod search;
pub mod sidebar;
pub mod template;
pub mod text;
pub mod viewer;

verus! {

} // verus!
