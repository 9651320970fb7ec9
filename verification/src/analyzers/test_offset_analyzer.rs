//! An analyzer that offsets the result of a previously run test analyzer by
//! a configured amount.

use vstd::prelude::*;

use crate::analysis::{AnalyzerImpl, AnalyzerOutput, Context};
use crate::error::Error;
use crate::program::ConfigValue;

verus! {

/// Configuration of a [`TestOffsetAnalyzer`]: the offset it applies.
#[derive(Debug, Clone, Copy, PartialEq, Eq, Structural)]
pub struct Config {
    pub offset: u32,
}

impl Config {
    /// Decodes the configuration from an opaque config value: a table whose
    /// `offset` entry holds an integer fitting `u32`. Anything else is a
    /// configuration error.
    pub fn from_value(v: &ConfigValue) -> (r: Result<Config, Error>)
        ensures
            match r {
                Ok(c) => v.spec_get("offset"@) matches Some(ConfigValue::Integer(x)) && 0 <= x
                    <= u32::MAX && c.offset == x,
                Err(e) => {
                    &&& e matches Error::Config(_)
                    &&& !(v.spec_get("offset"@) matches Some(ConfigValue::Integer(x)) && 0 <= x
                        <= u32::MAX)
                },
            },
    {
        match v.get("offset") {
            Some(entry) => match entry.as_integer() {
                Some(x) => {
                    if 0 <= x && x <= u32::MAX as i64 {
                        Ok(Config { offset: x as u32 })
                    } else {
                        Err(Error::Config(String::from_str("offset out of range")))
                    }
                },
                None => Err(Error::Config(String::from_str("offset must be an integer"))),
            },
            None => Err(Error::Config(String::from_str("missing offset"))),
        }
    }
}

/// Offsets the result of a previously run [`TestAnalyzer`] by a configured
/// amount, or simply returns the configured amount if no test analyzer has
/// been run.
///
/// [`TestAnalyzer`]: crate::analyzers::test_analyzer::TestAnalyzer
#[derive(Debug, Clone, Copy, PartialEq, Eq, Structural)]
pub struct TestOffsetAnalyzer {
    offset: u32,
}

impl TestOffsetAnalyzer {
    /// The configured offset.
    pub closed spec fn spec_offset(self) -> u32 {
        self.offset
    }

    /// Builds the analyzer from its configuration.
    pub fn new(config: &Config) -> (r: TestOffsetAnalyzer)
        ensures
            r.spec_offset() == config.offset,
    {
        TestOffsetAnalyzer { offset: config.offset }
    }

    /// Adds the configured offset to the numeric output of the completed
    /// test analyzer (wrapping on overflow), or returns the offset alone
    /// when no test analyzer has completed. Always succeeds.
    pub fn analyze(&self, context: &Context) -> (r: Result<u32, Error>)
        ensures
            ({
                let found = spec_dependency_number(context.spec_completed());
                match found {
                    Some(v) => r == Ok::<u32, Error>(
                        vstd::wrapping::u32_specs::wrapping_add(v, self.spec_offset()),
                    ),
                    None => r == Ok::<u32, Error>(self.spec_offset()),
                }
            }),
    {
        match context.get_dependency_output(AnalyzerImpl::Test) {
            Some(output) => match output {
                AnalyzerOutput::Number(v) => Ok(v.wrapping_add(self.offset)),
                _ => Ok(self.offset),
            },
            None => Ok(self.offset),
        }
    }
}

/// The numeric output of the first completed test analyzer, if any.
pub open spec fn spec_dependency_number(
    completed: Seq<crate::analysis::CompletedAnalyzer>,
) -> Option<u32> {
    match crate::analysis::spec_dependency_output(
        completed,
        AnalyzerImpl::Test,
        completed.len() as int,
    ) {
        Some(i) => match completed[i].output {
            AnalyzerOutput::Number(v) => Some(v),
            _ => None,
        },
        None => None,
    }
}

} // verus!
