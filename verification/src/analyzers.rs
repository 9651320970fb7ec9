//! Analyzer implementations and their constructor registry.

use vstd::prelude::*;

use crate::analysis::{AnalyzerInstance, AnalyzerKind};
use crate::error::Error;
use crate::program::{spec_known_implementation, ConfigValue};

pub mod gear_analyzer;
pub mod test_analyzer;
pub mod test_offset_analyzer;
pub mod tob_role_analyzer;

verus! {

/// True when the configuration value decodes to a `u32` under `key`: a table
/// whose entry for `key` holds an integer fitting `u32`.
pub open spec fn spec_config_decodes_u32(config: Option<ConfigValue>, key: Seq<char>) -> bool {
    config matches Some(v) && (v.spec_get(key) matches Some(ConfigValue::Integer(x)) && 0 <= x
        <= u32::MAX)
}

/// The configuration value behind an optional reference.
pub open spec fn spec_opt_value(config: Option<&ConfigValue>) -> Option<ConfigValue> {
    match config {
        Some(c) => Some(*c),
        None => None,
    }
}

/// True when constructing an analyzer with this tag and configuration fails:
/// the tag is unknown, or a test analyzer's required numeric configuration is
/// missing or malformed.
pub open spec fn spec_init_fails(implementation: Seq<char>, config: Option<ConfigValue>) -> bool {
    ||| !spec_known_implementation(implementation)
    ||| (implementation == "TestAnalyzer"@ && !spec_config_decodes_u32(config, "value"@))
    ||| (implementation == "TestOffsetAnalyzer"@ && !spec_config_decodes_u32(config, "offset"@))
}

/// Compares a string against a literal by contents.
fn string_is(s: &String, lit: &str) -> (r: bool)
    ensures
        r == (s@ == lit@),
{
    let l = lit.to_string();
    *s == l
}

/// Initializes a new instance of the analyzer with the given implementation
/// tag, based on analyzer-specific configuration options. Fails with a
/// configuration error when the tag is unknown or when a required
/// configuration is missing or malformed.
pub fn init_analyzer(name: &String, implementation: &String, config: Option<&ConfigValue>) -> (r:
    Result<AnalyzerInstance, Error>)
    ensures
        match r {
            Ok(instance) => {
                &&& spec_known_implementation(implementation@)
                &&& instance.logical_name@ == name@
                &&& (implementation@ == "GearAnalyzer"@ <==> instance.kind matches
                    AnalyzerKind::Gear(_))
                &&& (implementation@ == "TestAnalyzer"@ <==> instance.kind matches
                    AnalyzerKind::Test(_))
                &&& (implementation@ == "TestOffsetAnalyzer"@ <==> instance.kind matches
                    AnalyzerKind::TestOffset(_))
                &&& (implementation@ == "TobRoleAnalyzer"@ <==> instance.kind matches
                    AnalyzerKind::TobRole(_))
            },
            Err(e) => e matches Error::Config(_),
        },
        r is Err <==> spec_init_fails(implementation@, spec_opt_value(config)),
{
    proof {
        reveal_strlit("GearAnalyzer");
        reveal_strlit("TestAnalyzer");
        reveal_strlit("TestOffsetAnalyzer");
        reveal_strlit("TobRoleAnalyzer");
        assert("GearAnalyzer"@.len() == 12);
        assert("TestAnalyzer"@.len() == 12);
        assert("TestOffsetAnalyzer"@.len() == 18);
        assert("TobRoleAnalyzer"@.len() == 15);
        assert("GearAnalyzer"@[0] == 'G');
        assert("TestAnalyzer"@[0] == 'T');
        assert("GearAnalyzer"@ != "TestAnalyzer"@);
        assert("GearAnalyzer"@ != "TestOffsetAnalyzer"@);
        assert("GearAnalyzer"@ != "TobRoleAnalyzer"@);
        assert("TestAnalyzer"@ != "TestOffsetAnalyzer"@);
        assert("TestAnalyzer"@ != "TobRoleAnalyzer"@);
        assert("TestOffsetAnalyzer"@ != "TobRoleAnalyzer"@);
    }
    if string_is(implementation, "GearAnalyzer") {
        Ok(AnalyzerInstance {
            logical_name: name.clone(),
            kind: AnalyzerKind::Gear(gear_analyzer::GearAnalyzer::new()),
        })
    } else if string_is(implementation, "TestAnalyzer") {
        let cfg = match config {
            Some(value) => match test_analyzer::Config::from_value(value) {
                Ok(cfg) => cfg,
                Err(e) => {
                    return Err(e);
                },
            },
            None => {
                return Err(Error::Config(String::from_str("TestAnalyzer missing config options")));
            },
        };
        Ok(AnalyzerInstance {
            logical_name: name.clone(),
            kind: AnalyzerKind::Test(test_analyzer::TestAnalyzer::new(&cfg)),
        })
    } else if string_is(implementation, "TestOffsetAnalyzer") {
        let cfg = match config {
            Some(value) => match test_offset_analyzer::Config::from_value(value) {
                Ok(cfg) => cfg,
                Err(e) => {
                    return Err(e);
                },
            },
            None => {
                return Err(
                    Error::Config(String::from_str("TestOffsetAnalyzer missing config options")),
                );
            },
        };
        Ok(AnalyzerInstance {
            logical_name: name.clone(),
            kind: AnalyzerKind::TestOffset(test_offset_analyzer::TestOffsetAnalyzer::new(&cfg)),
        })
    } else if string_is(implementation, "TobRoleAnalyzer") {
        Ok(AnalyzerInstance {
            logical_name: name.clone(),
            kind: AnalyzerKind::TobRole(tob_role_analyzer::TobRoleAnalyzer::new()),
        })
    } else {
        Err(Error::Config(String::from_str("unknown analyzer implementation")))
    }
}

} // verus!
