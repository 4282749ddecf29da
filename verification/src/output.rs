//! The output stage: rendering parameters, zones, and the record of
//! already-rendered artifacts.

pub mod color_params;
pub mod dewarping_options;
pub mod distortion_model;
pub mod main;
pub mod output_params;
pub mod params;
pub mod picture_shape_options;
pub mod processing_params;
pub mod splitting;
pub mod zones;
