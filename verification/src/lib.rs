//! Export of live game data for LT AI Coach.
//!
//! When the coach asks, the exporter reads the open game and writes what the coach
//! needs. This library decides what is done in a frame ([`frame`]), in which order an
//! export is written ([`export`]), and what each file holds. It takes plain values and
//! JSON documents from the game and gives back the contents of files.

pub mod athletes;
pub mod campaign;
pub mod export;
pub mod frame;
pub mod history;
pub mod json;
pub mod ledger;
pub mod metadata;
pub mod paths;
pub mod portraits;
pub mod roles;
pub mod tables;
pub mod text;
pub mod trace;
