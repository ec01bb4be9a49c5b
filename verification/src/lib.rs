//! Verified core of the muninn monitoring agent: configuration, secrets, the
//! generated Telegraf configuration, health reporting and the update checks.

pub mod clock;
pub mod config;
pub mod duration;
pub mod error;
pub mod exit;
pub mod health;
pub mod json;
pub mod laws;
pub mod modules;
pub mod secret;
pub mod telegraf;
pub mod text;
pub mod yaml;
