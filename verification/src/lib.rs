//! Local state engine of a game add-on manager: the record of installed
//! add-ons and settings, its schema migration, and a time-bound cache of
//! remote catalog data.

pub mod cache;
pub mod codec;
pub mod database;
pub mod errors;
pub mod finder;
pub mod migration;
pub mod opening;
pub mod smods_installer;
pub mod table;
pub mod text;
