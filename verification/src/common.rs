//! Building blocks that the rest of the library shares.
pub mod collections;
pub mod config;
pub mod sequences;
pub mod text;
