//! Update client core for a desktop application: semantic-version
//! comparison, release-asset selection, checksum verification, safe
//! archive extraction planning, configuration parsing, and the update
//! pipeline's decision logic.

pub mod archive;
pub mod assets;
pub mod checksum;
pub mod config;
pub mod errors;
pub mod text;
pub mod updater;
pub mod version;
