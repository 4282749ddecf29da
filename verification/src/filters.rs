//! The six filter stages of the processing pipeline and their shared types.

pub mod common;
pub mod deskew;
pub mod fix_orientation;
pub mod main;
pub mod page_layout;
pub mod page_split;
pub mod select_content;
