//! Decision and parsing logic of the ruOS agent, backup, sensor and voice tools.

pub mod text;
pub mod pattern;
pub mod defence;
pub mod clock;
pub mod profile;
pub mod encoding;
pub mod consent;
pub mod sensors;
pub mod voice;
pub mod backup;
pub mod monitor;
pub mod ota;
pub mod agent;
