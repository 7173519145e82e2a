//! Verified core of the appreels demo-video tool.

pub mod text;
pub mod number;
pub mod capture;
pub mod render;
pub mod style;
pub mod terminal;
pub mod raster;
pub mod doctor;
pub mod cli;
pub mod perform;
pub mod script;
