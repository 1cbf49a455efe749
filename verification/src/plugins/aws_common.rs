//! What the resolvers of the cloud backends share: whether the operator runs
//! against a local stand-in of the cloud, and where that stand-in listens.
//! The caller reads the environment and hands over what it found.

use vstd::prelude::*;
use vstd::string::StringExecFns;
use crate::key_order::same_text;

verus! {

/// The value of the test switch that turns it on.
pub const TEST_ENV_ON: &'static str = "true";

/// Where the local stand-in listens unless told otherwise.
pub const LOCALSTACK_URL: &'static str = "http://localhost:4566/";

/// Whether the operator runs against a local stand-in: the test switch is
/// set to `true`.
pub fn is_test_env(test_env: &Option<String>) -> (r: bool)
    ensures
        r == (*test_env matches Some(v) && v@ == TEST_ENV_ON@),
{
    match test_env {
        Some(v) => same_text(v.as_str(), TEST_ENV_ON),
        None => false,
    }
}

/// Where the local stand-in listens: where it was told to, else at its
/// usual place.
pub fn localstack_endpoint(localstack_url: Option<String>) -> (r: String)
    ensures
        r@ == match localstack_url {
            Some(url) => url@,
            None => LOCALSTACK_URL@,
        },
{
    match localstack_url {
        Some(url) => url,
        None => String::from_str(LOCALSTACK_URL),
    }
}

/// A setting that has to come from the environment is not there.
#[derive(Clone, Copy, Debug, PartialEq, Eq, Structural)]
pub enum ConfigError {
    NotSet,
}

/// A setting from the environment: the one that is set; in a test
/// environment the default in its place; else an error.
pub open spec fn setting_or_default(test_env: bool, setting: Option<String>, default: Seq<char>) -> Result<
    Seq<char>,
    ConfigError,
> {
    match setting {
        Some(value) => Ok(value@),
        None => if test_env {
            Ok(default)
        } else {
            Err(ConfigError::NotSet)
        },
    }
}

/// A setting from the environment, or in a test environment its default.
pub fn get_setting(test_env: bool, setting: Option<String>, default: &str) -> (r: Result<
    String,
    ConfigError,
>)
    ensures
        match r {
            Ok(value) => setting_or_default(test_env, setting, default@) == Ok::<
                Seq<char>,
                ConfigError,
            >(value@),
            Err(e) => setting_or_default(test_env, setting, default@) == Err::<
                Seq<char>,
                ConfigError,
            >(e),
        },
{
    match setting {
        Some(value) => Ok(value),
        None => if test_env {
            Ok(String::from_str(default))
        } else {
            Err(ConfigError::NotSet)
        },
    }
}

} // verus!
