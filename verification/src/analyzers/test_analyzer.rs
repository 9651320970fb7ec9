//! An analyzer that simply returns a configured value.

use vstd::prelude::*;

use crate::analysis::Context;
use crate::error::Error;
use crate::program::ConfigValue;

verus! {

/// Configuration of a [`TestAnalyzer`]: the value it returns.
#[derive(Debug, Clone, Copy, PartialEq, Eq, Structural)]
pub struct Config {
    pub value: u32,
}

impl Config {
    /// Decodes the configuration from an opaque config value: a table whose
    /// `value` entry holds an integer fitting `u32`. Anything else is a
    /// configuration error.
    pub fn from_value(v: &ConfigValue) -> (r: Result<Config, Error>)
        ensures
            match r {
                Ok(c) => v.spec_get("value"@) matches Some(ConfigValue::Integer(x)) && 0 <= x
                    <= u32::MAX && c.value == x,
                Err(e) => {
                    &&& e matches Error::Config(_)
                    &&& !(v.spec_get("value"@) matches Some(ConfigValue::Integer(x)) && 0 <= x
                        <= u32::MAX)
                },
            },
    {
        match v.get("value") {
            Some(entry) => match entry.as_integer() {
                Some(x) => {
                    if 0 <= x && x <= u32::MAX as i64 {
                        Ok(Config { value: x as u32 })
                    } else {
                        Err(Error::Config(String::from_str("value out of range")))
                    }
                },
                None => Err(Error::Config(String::from_str("value must be an integer"))),
            },
            None => Err(Error::Config(String::from_str("missing value"))),
        }
    }
}

/// An analyzer that simply returns a configured value.
#[derive(Debug, Clone, Copy, PartialEq, Eq, Structural)]
pub struct TestAnalyzer {
    value: u32,
}

impl TestAnalyzer {
    /// The configured value.
    pub closed spec fn spec_value(self) -> u32 {
        self.value
    }

    /// Builds the analyzer from its configuration.
    pub fn new(config: &Config) -> (r: TestAnalyzer)
        ensures
            r.spec_value() == config.value,
    {
        TestAnalyzer { value: config.value }
    }

    /// Returns the configured value, always successfully.
    pub fn analyze(&self, _context: &Context) -> (r: Result<u32, Error>)
        ensures
            r == Ok::<u32, Error>(self.spec_value()),
    {
        Ok(self.value)
    }
}

} // verus!
