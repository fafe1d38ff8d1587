//! Synchronisation and authentication of a signed F-Droid package index,
//! and resolution of package requests against the verified index.

pub mod error;
pub mod text;
pub mod digest;
pub mod json;
pub mod scheme;
pub mod config;
pub mod cache;
pub mod archive;
pub mod signature;
pub mod manifest;
pub mod verify;
pub mod entry;
pub mod sync;
pub mod index;
pub mod versions;
pub mod csv;
pub mod cli;
