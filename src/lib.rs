//! Availability monitoring of network targets with alert escalation,
//! guaranteed fan-out delivery and resolution of alerts on recovery.
pub mod commands;
pub mod configs;
pub mod delivery;
pub mod monitor;
pub mod targets;
pub mod text;
