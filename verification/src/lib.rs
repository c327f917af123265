//! Discovery and parsing of component descriptor files.
//!
//! A descriptor file (`Component.yaml`) declares how one service of a
//! multi-service deployment is built and run.  This crate locates such
//! files under a directory tree and parses each one into a validated
//! [`component::Component`] value, applying per-field defaults and the
//! legacy version-field flattening rule.

pub mod component;
pub mod components;
pub mod mapping;
pub mod yaml;
