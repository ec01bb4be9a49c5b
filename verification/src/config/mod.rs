//! Configuration: the YAML shape, how it is loaded, what makes it valid, and
//! what the rest of muninn sees.
//!
//! ```text
//!   text
//!       │  loader::from_str     parse, check version and shape, apply overrides
//!       ▼
//!   ConfigV1                    model::  mirrors the file, nothing resolved
//!       │  validation::validate     semantic rules; returns warnings
//!       ▼
//!   Config                      normalised::  addresses parsed, secrets read,
//!                                             disabled outputs are None
//! ```

pub mod host;
pub mod loader;
pub mod model;
pub mod normalised;
pub mod schema;
pub mod validation;

pub use crate::config::loader::{load, Overrides};
pub use crate::config::model::{ConfigV1, LogFormat, LogLevel, SCHEMA_VERSION};
pub use crate::config::normalised::Config;

use vstd::prelude::*;
use crate::config::host::Host;
use crate::config::loader::{from_str, loads};
use crate::error::MuninnError;
use crate::yaml::yaml_document;

verus! {

/// The whole pipeline: parse a text, validate it, resolve it. Returns the resolved
/// configuration and any warnings.
pub fn load_and_resolve(text: &str, overrides: &Overrides, host: &Host) -> (r: Result<
    (Config, Vec<String>),
    MuninnError,
>)
    ensures
        match r {
            Ok((config, warnings)) => exists|cfg: ConfigV1|
                #![trigger config.resolves(cfg, *host)]
                loads(yaml_document(text@), *overrides, *host, Ok((cfg, warnings)))
                    && config.resolves(cfg, *host),
            Err(e) => loads(yaml_document(text@), *overrides, *host, Err(e)),
        },
{
    match from_str(text, overrides, host) {
        Ok((cfg, warnings)) => {
            let ghost raw = cfg;
            match Config::from_v1(cfg, host) {
                Ok(config) => {
                    proof {
                        assert(config.resolves(raw, *host));
                    }
                    Ok((config, warnings))
                }
                Err(e) => {
                    proof {
                        normalised::law_a_valid_configuration_resolves(raw, *host);
                    }
                    Err(e)
                }
            }
        }
        Err(e) => Err(e),
    }
}

} // verus!
