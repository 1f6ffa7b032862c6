//! A local catalogue of game directories from several engine families:
//! engine-type detection, per-game container profiles, launch planning,
//! and provisioning of a versioned NW.js runtime from archived releases.

pub mod archive;
pub mod bottles;
pub mod config;
pub mod engine;
pub mod errors;
pub mod fsmodel;
pub mod launch;
pub mod paths;
pub mod profile;
pub mod records;
pub mod runtime;
pub mod scan;
pub mod text;
