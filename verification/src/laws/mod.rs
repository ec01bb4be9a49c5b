//! What the library promises, stated over what its functions return and over plain
//! text, and proved from their contracts.

pub mod configuration;
pub mod generation;
pub mod health;
pub mod image_updates;
pub mod modules;
pub mod package_updates;
pub mod rendering;
pub mod rules;
pub mod schema;
pub mod secrets;
pub mod telegraf;
pub mod text;
pub mod transport;
