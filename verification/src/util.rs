//! Helpers that the builders share.

pub mod file_util;
