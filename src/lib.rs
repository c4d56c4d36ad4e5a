pub mod boot;
pub mod greeting;
pub mod laws;
pub mod migration;
pub mod schema;
pub mod sequencer;
