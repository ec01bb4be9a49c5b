//! A typed Telegraf configuration, its rendering, and what is decided about the
//! Telegraf process.

pub mod model;
pub mod process;
pub mod renderer;
pub mod validator;
pub mod version;

pub use crate::telegraf::model::{PluginInstance, TelegrafConfig, TomlTable, TomlValue};
pub use crate::telegraf::renderer::render;
