use crate::cache::cache_impl::EvictionPolicy;
use crate::cache::similarity::Similarity;
use vstd::prelude::*;
use vstd::string::StringExecFns;

verus! {

/// The eviction policy as the configuration writes it: a kind and a number.
#[derive(Debug, Clone)]
pub struct EvictionPolicyConfig {
    pub policy_type: String,
    pub value: usize,
}

/// What the configuration sources hold for one key.
#[derive(Debug, Clone)]
pub enum Setting<T> {
    /// A source sets the key to this value.
    Given(T),
    /// No source sets the key.
    Unset,
    /// A source sets the key to something that cannot be read as a value of its kind,
    /// with the source's words for it.
    Invalid(String),
}

/// What the configuration sources hold, key by key.
#[derive(Debug, Clone)]
pub struct Settings {
    pub log_level: Setting<String>,
    pub port: Setting<i64>,
    pub similarity_threshold: Setting<Similarity>,
    pub eviction_policy: Setting<EvictionPolicyConfig>,
}

/// Why a setting could not be had.
#[derive(Debug, Clone, PartialEq)]
pub enum ConfigError {
    /// No source sets the key.
    NotFound(String),
    /// The key is set to something that cannot be used, with the reason.
    Message(String),
}

/// The policy that a kind and a number stand for, if the kind is known.
pub open spec fn eviction_policy_of(policy_type: Seq<char>, value: usize) -> Option<
    EvictionPolicy,
> {
    if policy_type == "entry_limit"@ {
        Some(EvictionPolicy::EntryLimit(value))
    } else if policy_type == "memory_limit_bytes"@ {
        Some(EvictionPolicy::ByteLimit(value))
    } else {
        None
    }
}

/// The configured log level: the value that is set, an error that names the key
/// where none is, and the source's words where what is set cannot be read.
pub fn get_log_level(conf: &Settings) -> (level: Result<String, ConfigError>)
    ensures
        match conf.log_level {
            Setting::Given(set) => level is Ok && level->Ok_0@ == set@,
            Setting::Unset => level matches Err(ConfigError::NotFound(key)) && key@
                == "log_level"@,
            Setting::Invalid(words) => level matches Err(ConfigError::Message(message))
                && message@ == words@,
        },
{
    match &conf.log_level {
        Setting::Given(set) => Ok(set.clone()),
        Setting::Unset => Err(ConfigError::NotFound(String::from_str("log_level"))),
        Setting::Invalid(words) => Err(ConfigError::Message(words.clone())),
    }
}

/// The configured port, or an error as for the log level.
pub fn get_port(conf: &Settings) -> (port: Result<i64, ConfigError>)
    ensures
        match conf.port {
            Setting::Given(set) => port == Ok::<i64, ConfigError>(set),
            Setting::Unset => port matches Err(ConfigError::NotFound(key)) && key@ == "port"@,
            Setting::Invalid(words) => port matches Err(ConfigError::Message(message))
                && message@ == words@,
        },
{
    match &conf.port {
        Setting::Given(set) => Ok(*set),
        Setting::Unset => Err(ConfigError::NotFound(String::from_str("port"))),
        Setting::Invalid(words) => Err(ConfigError::Message(words.clone())),
    }
}

/// The configured similarity threshold, or an error as for the log level.
pub fn get_similarity_threshold(conf: &Settings) -> (threshold: Result<Similarity, ConfigError>)
    ensures
        match conf.similarity_threshold {
            Setting::Given(set) => threshold == Ok::<Similarity, ConfigError>(set),
            Setting::Unset => threshold matches Err(ConfigError::NotFound(key)) && key@
                == "similarity_threshold"@,
            Setting::Invalid(words) => threshold matches Err(ConfigError::Message(message))
                && message@ == words@,
        },
{
    match &conf.similarity_threshold {
        Setting::Given(set) => Ok(*set),
        Setting::Unset => Err(ConfigError::NotFound(String::from_str("similarity_threshold"))),
        Setting::Invalid(words) => Err(ConfigError::Message(words.clone())),
    }
}

/// The configured eviction policy. A kind other than `entry_limit` and
/// `memory_limit_bytes` is refused with a message that names it; a key that is not set
/// or cannot be read is refused as for the log level.
pub fn get_eviction_policy(conf: &Settings) -> (policy: Result<EvictionPolicy, ConfigError>)
    ensures
        match conf.eviction_policy {
            Setting::Given(set) => match eviction_policy_of(set.policy_type@, set.value) {
                Some(known) => policy == Ok::<EvictionPolicy, ConfigError>(known),
                None => policy matches Err(ConfigError::Message(words)) && words@
                    == "Unknown eviction policy type: "@ + set.policy_type@,
            },
            Setting::Unset => policy matches Err(ConfigError::NotFound(key)) && key@
                == "eviction_policy"@,
            Setting::Invalid(words) => policy matches Err(ConfigError::Message(message))
                && message@ == words@,
        },
{
    let set = match &conf.eviction_policy {
        Setting::Given(set) => set,
        Setting::Unset => {
            return Err(ConfigError::NotFound(String::from_str("eviction_policy")));
        },
        Setting::Invalid(words) => {
            return Err(ConfigError::Message(words.clone()));
        },
    };
    if set.policy_type == String::from_str("entry_limit") {
        Ok(EvictionPolicy::EntryLimit(set.value))
    } else if set.policy_type == String::from_str("memory_limit_bytes") {
        Ok(EvictionPolicy::ByteLimit(set.value))
    } else {
        Err(
            ConfigError::Message(
                String::from_str("Unknown eviction policy type: ").concat(
                    set.policy_type.as_str(),
                ),
            ),
        )
    }
}

} // verus!
