use vstd::prelude::*;

use crate::traits::builder::Builder;

verus! {

/// Bounding box, in canvas pixels, that the logo is scaled to fit within.
pub struct LogoConfig {
    pub width: u32,
    pub height: u32,
}

impl Default for LogoConfig {
    fn default() -> (r: Self)
        ensures
            r.width == 50,
            r.height == 50,
    {
        Self { width: 50, height: 50 }
    }
}

/// Collects the options of a `LogoConfig`; unset options fall back to the
/// defaults when `build` runs.
pub struct LogoConfigBuilder {
    pub width: Option<u32>,
    pub height: Option<u32>,
}

impl Builder<LogoConfig> for LogoConfigBuilder {
    fn new() -> (r: Self)
        ensures
            r.width is None,
            r.height is None,
    {
        Self { width: None, height: None }
    }

    fn build(self) -> (r: LogoConfig)
        ensures
            r.width == self.width.unwrap_or(50),
            r.height == self.height.unwrap_or(50),
    {
        let logo_config_default = LogoConfig::default();

        LogoConfig {
            width: match self.width {
                Some(v) => v,
                None => logo_config_default.width,
            },
            height: match self.height {
                Some(v) => v,
                None => logo_config_default.height,
            },
        }
    }
}

impl LogoConfigBuilder {
    pub fn width(self, width: u32) -> (r: Self)
        ensures
            r == (LogoConfigBuilder { width: Some(width), ..self }),
    {
        LogoConfigBuilder { width: Some(width), ..self }
    }

    pub fn height(self, height: u32) -> (r: Self)
        ensures
            r == (LogoConfigBuilder { height: Some(height), ..self }),
    {
        LogoConfigBuilder { height: Some(height), ..self }
    }
}

} // verus!
