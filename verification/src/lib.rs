//! Annotations for Bitcoin data: structured tags, the BIP329 label format
//! that carries them, and the decisions of the `bdk-label` command line tool.

pub mod text;
pub mod tag;
pub mod label;
pub mod annotation;
pub mod convert;
pub mod cli;
pub mod db;
pub mod commands;
