//! Verified core of a lightweight memory and GPU memory viewer.

pub mod app_core;
pub mod decimal;
pub mod doubles;
pub mod gpu;
pub mod labels;
pub mod memory;
pub mod sorting;
pub mod text;
pub mod types;
pub mod view_model;
