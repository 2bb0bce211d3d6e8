use semcache::cache::cache_impl::EvictionPolicy;
use semcache::cache::similarity::Similarity;
use semcache::config::{
    get_eviction_policy, get_log_level, get_port, get_similarity_threshold, ConfigError,
    EvictionPolicyConfig, Setting, Settings,
};
use semcache::embedding::{EmbeddingError, EmbeddingModel, FastEmbedService};

fn empty() -> Settings {
    Settings {
        log_level: Setting::Unset,
        port: Setting::Unset,
        similarity_threshold: Setting::Unset,
        eviction_policy: Setting::Unset,
    }
}

fn with_policy(policy_type: &str, value: usize) -> Settings {
    Settings {
        eviction_policy: Setting::Given(EvictionPolicyConfig {
            policy_type: String::from(policy_type),
            value,
        }),
        ..empty()
    }
}

#[test]
fn settings_that_are_set_are_returned() {
    let conf = Settings {
        log_level: Setting::Given(String::from("info")),
        port: Setting::Given(9090),
        similarity_threshold: Setting::Given(Similarity::from_bits(0.85f32.to_bits())),
        eviction_policy: Setting::Unset,
    };
    assert_eq!(get_log_level(&conf), Ok(String::from("info")));
    assert_eq!(get_port(&conf), Ok(9090));
    assert_eq!(
        get_similarity_threshold(&conf).map(|t| f32::from_bits(t.to_bits())),
        Ok(0.85)
    );
}

#[test]
fn settings_that_are_missing_name_their_key() {
    let conf = empty();
    assert_eq!(get_log_level(&conf), Err(ConfigError::NotFound(String::from("log_level"))));
    assert_eq!(get_port(&conf), Err(ConfigError::NotFound(String::from("port"))));
    assert_eq!(
        get_similarity_threshold(&conf).map(|t| t.to_bits()),
        Err(ConfigError::NotFound(String::from("similarity_threshold")))
    );
    assert!(matches!(
        get_eviction_policy(&conf),
        Err(ConfigError::NotFound(key)) if key == "eviction_policy"
    ));
}

#[test]
fn settings_that_cannot_be_read_say_why() {
    let conf = Settings {
        log_level: Setting::Invalid(String::from("invalid type: map, expected a string")),
        port: Setting::Invalid(String::from("invalid type: string \"eighty\", expected an integer")),
        similarity_threshold: Setting::Invalid(String::from("not a number")),
        eviction_policy: Setting::Invalid(String::from("missing field `value`")),
    };
    assert_eq!(
        get_log_level(&conf),
        Err(ConfigError::Message(String::from("invalid type: map, expected a string")))
    );
    assert_eq!(
        get_port(&conf),
        Err(ConfigError::Message(String::from(
            "invalid type: string \"eighty\", expected an integer"
        )))
    );
    assert_eq!(
        get_similarity_threshold(&conf),
        Err(ConfigError::Message(String::from("not a number")))
    );
    assert!(matches!(
        get_eviction_policy(&conf),
        Err(ConfigError::Message(words)) if words == "missing field `value`"
    ));
}

#[test]
fn eviction_policy_by_kind() {
    assert!(matches!(
        get_eviction_policy(&with_policy("entry_limit", 4)),
        Ok(EvictionPolicy::EntryLimit(4))
    ));
    assert!(matches!(
        get_eviction_policy(&with_policy("memory_limit_bytes", 1_000_000)),
        Ok(EvictionPolicy::ByteLimit(1_000_000))
    ));
    assert!(matches!(
        get_eviction_policy(&with_policy("lfu", 4)),
        Err(ConfigError::Message(words)) if words == "Unknown eviction policy type: lfu"
    ));
    assert!(matches!(
        get_eviction_policy(&with_policy("", 0)),
        Err(ConfigError::Message(words)) if words == "Unknown eviction policy type: "
    ));
    assert!(matches!(
        get_eviction_policy(&with_policy("Entry_Limit", 4)),
        Err(ConfigError::Message(_))
    ));
}

#[test]
fn embedding_service_knows_its_dimensionality() {
    let service = FastEmbedService::new();
    assert_eq!(service.model_name(), EmbeddingModel::AllMiniLML6V2);
    assert_eq!(service.get_dimensionality(), 384);
}

#[test]
fn embedding_errors_describe_themselves() {
    assert_eq!(
        EmbeddingError::GenerationError(String::from("no tokens")).message(),
        "Failed to generate embedding: no tokens"
    );
    assert_eq!(
        EmbeddingError::SetupError(String::from("no model")).message(),
        "Failed to set up embedding model: no model"
    );
}
