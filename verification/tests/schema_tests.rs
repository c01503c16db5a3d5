use bitconf::config::ConfigEntry;
use bitconf::schema::{get_default_schema, ConfigCategory, ConfigSchema, ConfigType};

#[test]
fn get_default_schema_returns_non_empty_list() {
    let schema = get_default_schema();
    assert!(!schema.is_empty());
}

#[test]
fn get_default_schema_contains_core_options() {
    let schema = get_default_schema();
    let keys: Vec<&str> = schema.iter().map(|s| s.key.as_str()).collect();

    assert!(keys.contains(&"datadir"));
    assert!(keys.contains(&"txindex"));
    assert!(keys.contains(&"prune"));
    assert!(keys.contains(&"dbcache"));
}

#[test]
fn get_default_schema_contains_network_options() {
    let schema = get_default_schema();
    let keys: Vec<&str> = schema.iter().map(|s| s.key.as_str()).collect();

    assert!(keys.contains(&"testnet"));
    assert!(keys.contains(&"regtest"));
    assert!(keys.contains(&"listen"));
    assert!(keys.contains(&"port"));
    assert!(keys.contains(&"maxconnections"));
}

#[test]
fn get_default_schema_contains_rpc_options() {
    let schema = get_default_schema();
    let keys: Vec<&str> = schema.iter().map(|s| s.key.as_str()).collect();

    assert!(keys.contains(&"server"));
    assert!(keys.contains(&"rpcuser"));
    assert!(keys.contains(&"rpcpassword"));
    assert!(keys.contains(&"rpcport"));
}

#[test]
fn get_default_schema_contains_zmq_options() {
    let schema = get_default_schema();
    let keys: Vec<&str> = schema.iter().map(|s| s.key.as_str()).collect();

    assert!(keys.contains(&"zmqpubhashblock"));
    assert!(keys.contains(&"zmqpubhashtx"));
    assert!(keys.contains(&"zmqpubrawblock"));
    assert!(keys.contains(&"zmqpubrawtx"));
    assert!(keys.contains(&"zmqpubsequence"));
}

#[test]
fn get_default_schema_has_correct_categories() {
    let schema = get_default_schema();

    let txindex = schema.iter().find(|s| s.key == "txindex").unwrap();
    assert_eq!(txindex.category, ConfigCategory::Core);

    let testnet = schema.iter().find(|s| s.key == "testnet").unwrap();
    assert_eq!(testnet.category, ConfigCategory::Network);

    let server = schema.iter().find(|s| s.key == "server").unwrap();
    assert_eq!(server.category, ConfigCategory::RPC);

    let disablewallet = schema.iter().find(|s| s.key == "disablewallet").unwrap();
    assert_eq!(disablewallet.category, ConfigCategory::Wallet);
}

#[test]
fn get_default_schema_has_correct_types() {
    let schema = get_default_schema();

    let txindex = schema.iter().find(|s| s.key == "txindex").unwrap();
    assert_eq!(txindex.config_type, ConfigType::Bool);

    let dbcache = schema.iter().find(|s| s.key == "dbcache").unwrap();
    assert_eq!(dbcache.config_type, ConfigType::Int);

    let fallbackfee = schema.iter().find(|s| s.key == "fallbackfee").unwrap();
    assert_eq!(fallbackfee.config_type, ConfigType::Float);

    let datadir = schema.iter().find(|s| s.key == "datadir").unwrap();
    assert_eq!(datadir.config_type, ConfigType::Path);

    let rpcbind = schema.iter().find(|s| s.key == "rpcbind").unwrap();
    assert_eq!(rpcbind.config_type, ConfigType::Address);
}

#[test]
fn config_schema_new_creates_correct_schema() {
    let schema = ConfigSchema::new(
        "testkey",
        "testdefault",
        ConfigType::String,
        ConfigCategory::Core,
        "Test description",
    );

    assert_eq!(schema.key, "testkey");
    assert_eq!(schema.default, "testdefault");
    assert_eq!(schema.config_type, ConfigType::String);
    assert_eq!(schema.category, ConfigCategory::Core);
    assert_eq!(schema.description, "Test description");
}

#[test]
fn config_type_is_copy() {
    let t1 = ConfigType::Bool;
    let t2 = t1; // Copy
    assert_eq!(t1, t2);
}

#[test]
fn config_category_is_copy() {
    let c1 = ConfigCategory::Core;
    let c2 = c1; // Copy
    assert_eq!(c1, c2);
}

#[test]
fn config_entry_clone_works() {
    let entry = ConfigEntry {
        key: "test".to_string(),
        value: "value".to_string(),
        schema: None,
        enabled: true,
    };
    let cloned = entry.clone();
    assert_eq!(entry.key, cloned.key);
    assert_eq!(entry.value, cloned.value);
    assert_eq!(entry.enabled, cloned.enabled);
}

#[test]
fn config_schema_clone_works() {
    let schema = ConfigSchema::new(
        "test",
        "default",
        ConfigType::String,
        ConfigCategory::Core,
        "description",
    );
    let cloned = schema.clone();
    assert_eq!(schema.key, cloned.key);
    assert_eq!(schema.default, cloned.default);
    assert_eq!(schema.config_type, cloned.config_type);
    assert_eq!(schema.category, cloned.category);
    assert_eq!(schema.description, cloned.description);
}
