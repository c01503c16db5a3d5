use bitconf::config::BitcoinConfigFile;
use bitconf::schema::ConfigCategory;

#[test]
fn bitcoin_config_file_new_creates_with_defaults() {
    let config = BitcoinConfigFile::new("bitcoin.conf");

    assert_eq!(config.path, "bitcoin.conf");
    assert!(!config.entries.is_empty());

    // All entries should be disabled
    for entry in &config.entries {
        assert!(!entry.enabled);
        assert!(entry.schema.is_some());
    }
}

#[test]
fn bitcoin_config_file_open_parses_file() {
    let config = BitcoinConfigFile::open("bitcoin.conf", Some("txindex=1\nserver=1\n"));

    let txindex = config.get("txindex").unwrap();
    assert_eq!(txindex.value, "1");
    assert!(txindex.enabled);

    let server = config.get("server").unwrap();
    assert_eq!(server.value, "1");
    assert!(server.enabled);
}

#[test]
fn bitcoin_config_file_open_non_existent_returns_defaults() {
    // a file that does not exist hands the parser no contents
    let config = BitcoinConfigFile::open("/non/existent/path/bitcoin.conf", None);

    assert!(!config.entries.is_empty());
    // All entries should be disabled
    for entry in &config.entries {
        assert!(!entry.enabled);
    }
}

#[test]
fn bitcoin_config_file_get_returns_entry() {
    let config = BitcoinConfigFile::new("bitcoin.conf");

    let entry = config.get("txindex");
    assert!(entry.is_some());
    assert_eq!(entry.unwrap().key, "txindex");

    let nonexistent = config.get("nonexistent");
    assert!(nonexistent.is_none());
}

#[test]
fn bitcoin_config_file_get_mut_updates_entry() {
    let mut config = BitcoinConfigFile::new("bitcoin.conf");

    let entry = config.get_mut("txindex");
    assert!(entry.is_some());
    let entry = entry.unwrap();
    entry.value = "1".to_string();
    entry.enabled = true;

    let seen = config.get("txindex").unwrap();
    assert_eq!(seen.value, "1");
    assert!(seen.enabled);

    assert!(config.get_mut("nonexistent").is_none());
}

#[test]
fn bitcoin_config_file_set_updates_value() {
    let mut config = BitcoinConfigFile::new("bitcoin.conf");

    assert!(config.set("txindex", "1"));
    let entry = config.get("txindex").unwrap();
    assert_eq!(entry.value, "1");
    assert!(entry.enabled);

    // Non-existent key returns false
    assert!(!config.set("nonexistent", "value"));
}

#[test]
fn bitcoin_config_file_set_missing_key_leaves_document_unchanged() {
    let mut config = BitcoinConfigFile::new("bitcoin.conf");
    let before: Vec<(String, String, bool)> = config
        .entries
        .iter()
        .map(|e| (e.key.clone(), e.value.clone(), e.enabled))
        .collect();

    assert!(!config.set("nonexistent", "value"));

    let after: Vec<(String, String, bool)> = config
        .entries
        .iter()
        .map(|e| (e.key.clone(), e.value.clone(), e.enabled))
        .collect();
    assert_eq!(before, after);
}

#[test]
fn bitcoin_config_file_set_forces_enabled() {
    let mut config = BitcoinConfigFile::new("bitcoin.conf");

    // disable first, then set: the entry must come back enabled
    assert!(config.set("txindex", "1"));
    assert!(config.disable("txindex"));
    assert!(!config.get("txindex").unwrap().enabled);

    assert!(config.set("txindex", "0"));
    let entry = config.get("txindex").unwrap();
    assert_eq!(entry.value, "0");
    assert!(entry.enabled);
}

#[test]
fn bitcoin_config_file_enable_disable() {
    let mut config = BitcoinConfigFile::new("bitcoin.conf");

    // Initially disabled
    assert!(!config.get("txindex").unwrap().enabled);

    // Enable
    assert!(config.enable("txindex"));
    assert!(config.get("txindex").unwrap().enabled);

    // Disable
    assert!(config.disable("txindex"));
    assert!(!config.get("txindex").unwrap().enabled);

    // Non-existent key returns false
    assert!(!config.enable("nonexistent"));
    assert!(!config.disable("nonexistent"));
}

#[test]
fn bitcoin_config_file_add_custom() {
    let mut config = BitcoinConfigFile::new("bitcoin.conf");

    config.add_custom("customkey", "customvalue");

    let entry = config.get("customkey").unwrap();
    assert_eq!(entry.key, "customkey");
    assert_eq!(entry.value, "customvalue");
    assert!(entry.enabled);
    assert!(entry.schema.is_none());

    // Adding again updates value
    config.add_custom("customkey", "newvalue");
    assert_eq!(config.get("customkey").unwrap().value, "newvalue");
}

#[test]
fn add_custom_twice_leaves_one_entry() {
    let mut config = BitcoinConfigFile::new("bitcoin.conf");

    config.add_custom("foo", "bar");
    config.add_custom("foo", "baz");

    let matches: Vec<&bitconf::config::ConfigEntry> =
        config.entries.iter().filter(|e| e.key == "foo").collect();
    assert_eq!(matches.len(), 1);
    assert_eq!(matches[0].value, "baz");
    assert!(matches[0].enabled);
}

#[test]
fn bitcoin_config_file_remove() {
    let mut config = BitcoinConfigFile::new("bitcoin.conf");

    config.add_custom("customkey", "value");
    assert!(config.get("customkey").is_some());

    assert!(config.remove("customkey"));
    assert!(config.get("customkey").is_none());

    // Removing non-existent returns false
    assert!(!config.remove("nonexistent"));
}

#[test]
fn bitcoin_config_file_enabled_entries() {
    let mut config = BitcoinConfigFile::new("bitcoin.conf");

    config.set("txindex", "1");
    config.set("server", "1");

    let enabled = config.enabled_entries();
    assert_eq!(enabled.len(), 2);
}

#[test]
fn bitcoin_config_file_entries_by_category() {
    let config = BitcoinConfigFile::new("bitcoin.conf");

    let core_entries = config.entries_by_category(ConfigCategory::Core);
    assert!(!core_entries.is_empty());

    // All returned entries should be Core category
    for entry in &core_entries {
        assert_eq!(
            entry.schema.as_ref().unwrap().category,
            ConfigCategory::Core
        );
    }

    let network_entries = config.entries_by_category(ConfigCategory::Network);
    assert!(!network_entries.is_empty());
}

#[test]
fn bitcoin_config_file_to_config_string() {
    let mut config = BitcoinConfigFile::new("bitcoin.conf");

    config.set("txindex", "1");
    config.set("server", "1");

    let output = config.to_config_string();

    assert!(output.contains("txindex=1"));
    assert!(output.contains("server=1"));
    assert!(output.contains("# Core"));
    assert!(output.contains("# RPC"));
}

#[test]
fn to_config_string_exact_output() {
    let mut config = BitcoinConfigFile::new("bitcoin.conf");

    config.set("txindex", "1");
    config.set("server", "1");
    config.add_custom("mycustom", "myvalue");

    let output = config.to_config_string();
    assert_eq!(
        output,
        "# Core\ntxindex=1\n\n# RPC\nserver=1\n\n# Custom\nmycustom=myvalue\n"
    );
}

#[test]
fn bitcoin_config_file_save_and_reload() {
    // Create a config, serialize it, and reload the written text
    let mut config = BitcoinConfigFile::new("bitcoin.conf");
    config.set("txindex", "1");
    config.set("dbcache", "1000");
    config.set("server", "1");
    config.set("rpcport", "8332");
    let written = config.to_config_string();

    // Reload and verify
    let reloaded = BitcoinConfigFile::open("bitcoin.conf", Some(written.as_str()));

    let txindex = reloaded.get("txindex").unwrap();
    assert_eq!(txindex.value, "1");
    assert!(txindex.enabled);

    let dbcache = reloaded.get("dbcache").unwrap();
    assert_eq!(dbcache.value, "1000");
    assert!(dbcache.enabled);

    let server = reloaded.get("server").unwrap();
    assert_eq!(server.value, "1");
    assert!(server.enabled);

    let rpcport = reloaded.get("rpcport").unwrap();
    assert_eq!(rpcport.value, "8332");
    assert!(rpcport.enabled);
}

#[test]
fn bitcoin_config_file_preserves_custom_entries() {
    let mut config = BitcoinConfigFile::new("bitcoin.conf");
    config.set("txindex", "1");
    config.add_custom("mycustom", "myvalue");
    let written = config.to_config_string();

    let reloaded = BitcoinConfigFile::open("bitcoin.conf", Some(written.as_str()));
    let custom = reloaded.get("mycustom").unwrap();
    assert_eq!(custom.value, "myvalue");
    assert!(custom.enabled);
}

#[test]
fn open_config_function_works() {
    let config = BitcoinConfigFile::open("bitcoin.conf", Some("txindex=1\n"));
    assert_eq!(config.get("txindex").unwrap().value, "1");
}
