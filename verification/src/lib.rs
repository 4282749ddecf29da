//! A schema-bound reader, validator and writer for the versioned XML project
//! files that a document-scan-processing tool produces. The codec parses the
//! canonical text form into a typed document tree, validates range and
//! cross-field rules over that tree, and serializes the tree back; every text
//! a successful parse accepts is reproduced byte-for-byte by the serializer.

pub mod base64;
pub mod common;
pub mod decimal;
pub mod directories;
pub mod file_name_disambiguation;
pub mod files;
pub mod filters;
pub mod images;
pub mod layout_direction;
pub mod numbers;
pub mod output;
pub mod pages;
pub mod project;
pub mod validate;
pub mod wire;
