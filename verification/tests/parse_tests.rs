use bitconf::config::parse_config;

#[test]
fn parse_config_non_existent_file_returns_defaults() {
    // a file that does not exist hands the parser no contents
    let entries = parse_config(None);

    assert!(!entries.is_empty());

    // All entries should have schema and be disabled
    for entry in &entries {
        assert!(entry.schema.is_some());
        assert!(!entry.enabled);
    }
}

#[test]
fn parse_config_empty_file_returns_defaults() {
    let entries = parse_config(Some(""));

    assert!(!entries.is_empty());

    // All entries should be disabled (not set in config)
    let enabled_count = entries.iter().filter(|e| e.enabled).count();
    assert_eq!(enabled_count, 0);
}

#[test]
fn parse_config_parses_bool_values() {
    let entries = parse_config(Some("txindex=1\nserver=0\n"));

    let txindex = entries.iter().find(|e| e.key == "txindex").unwrap();
    assert_eq!(txindex.value, "1");
    assert!(txindex.enabled);

    let server = entries.iter().find(|e| e.key == "server").unwrap();
    assert_eq!(server.value, "0");
    assert!(server.enabled);
}

#[test]
fn parse_config_parses_int_values() {
    let entries = parse_config(Some("dbcache=1000\nport=8334\n"));

    let dbcache = entries.iter().find(|e| e.key == "dbcache").unwrap();
    assert_eq!(dbcache.value, "1000");
    assert!(dbcache.enabled);

    let port = entries.iter().find(|e| e.key == "port").unwrap();
    assert_eq!(port.value, "8334");
    assert!(port.enabled);
}

#[test]
fn parse_config_parses_string_values() {
    let entries = parse_config(Some("rpcuser=myuser\nrpcpassword=mypassword\n"));

    let rpcuser = entries.iter().find(|e| e.key == "rpcuser").unwrap();
    assert_eq!(rpcuser.value, "myuser");
    assert!(rpcuser.enabled);

    let rpcpassword = entries.iter().find(|e| e.key == "rpcpassword").unwrap();
    assert_eq!(rpcpassword.value, "mypassword");
    assert!(rpcpassword.enabled);
}

#[test]
fn parse_config_parses_path_values() {
    let entries = parse_config(Some("datadir=/home/user/.bitcoin\n"));

    let datadir = entries.iter().find(|e| e.key == "datadir").unwrap();
    assert_eq!(datadir.value, "/home/user/.bitcoin");
    assert!(datadir.enabled);
}

#[test]
fn parse_config_parses_address_values() {
    let entries = parse_config(Some("zmqpubhashblock=tcp://127.0.0.1:28332\n"));

    let zmq = entries.iter().find(|e| e.key == "zmqpubhashblock").unwrap();
    assert_eq!(zmq.value, "tcp://127.0.0.1:28332");
    assert!(zmq.enabled);
}

#[test]
fn parse_config_handles_unknown_keys() {
    let entries = parse_config(Some("[main]\nunknownkey=unknownvalue\n"));

    let unknown = entries.iter().find(|e| e.key == "unknownkey");
    assert!(
        unknown.is_some(),
        "Unknown key should be present in entries"
    );

    let unknown = unknown.unwrap();
    assert_eq!(unknown.value, "unknownvalue");
    assert!(unknown.enabled);
    assert!(unknown.schema.is_none());
}

#[test]
fn parse_config_handles_section_values() {
    let content = "
[main]
rpcport=8332

[test]
rpcport=18332
";
    let entries = parse_config(Some(content));

    // Should find rpcport with first matching section value
    let rpcport = entries.iter().find(|e| e.key == "rpcport").unwrap();
    assert!(rpcport.enabled);
}

#[test]
fn parse_config_preserves_schema_info() {
    let entries = parse_config(Some("txindex=1\n"));

    let txindex = entries.iter().find(|e| e.key == "txindex").unwrap();
    assert!(txindex.schema.is_some());

    let schema = txindex.schema.as_ref().unwrap();
    assert_eq!(schema.config_type, bitconf::schema::ConfigType::Bool);
    assert_eq!(schema.category, bitconf::schema::ConfigCategory::Core);
    assert!(!schema.description.is_empty());
}

#[test]
fn parse_config_uses_defaults_for_unset_options() {
    let entries = parse_config(Some("txindex=1\n"));

    // dbcache should have default value since not set
    let dbcache = entries.iter().find(|e| e.key == "dbcache").unwrap();
    assert_eq!(dbcache.value, "450"); // default value
    assert!(!dbcache.enabled);
}

#[test]
fn parse_config_handles_comments() {
    let content = "
# This is a comment
txindex=1
# Another comment
server=1
";
    let entries = parse_config(Some(content));

    let txindex = entries.iter().find(|e| e.key == "txindex").unwrap();
    assert_eq!(txindex.value, "1");
    assert!(txindex.enabled);

    let server = entries.iter().find(|e| e.key == "server").unwrap();
    assert_eq!(server.value, "1");
    assert!(server.enabled);
}

#[test]
fn parse_config_handles_full_config() {
    let content = "
# Bitcoin Core configuration

# Network
testnet=0
listen=1
port=8333
maxconnections=125

# RPC
server=1
rpcuser=bitcoinrpc
rpcpassword=secretpassword
rpcport=8332
rpcallowip=127.0.0.1

# Wallet
disablewallet=0
fallbackfee=0.0002

# ZMQ
zmqpubhashblock=tcp://127.0.0.1:28332
zmqpubhashtx=tcp://127.0.0.1:28333
";
    let entries = parse_config(Some(content));

    // Verify various entries
    let testnet = entries.iter().find(|e| e.key == "testnet").unwrap();
    assert_eq!(testnet.value, "0");
    assert!(testnet.enabled);

    let rpcuser = entries.iter().find(|e| e.key == "rpcuser").unwrap();
    assert_eq!(rpcuser.value, "bitcoinrpc");

    let zmq = entries.iter().find(|e| e.key == "zmqpubhashblock").unwrap();
    assert_eq!(zmq.value, "tcp://127.0.0.1:28332");
}

#[test]
fn parse_config_malformed_file_returns_defaults() {
    // a line that is neither a comment, a header nor a pair fails the
    // whole file, which degrades to all defaults
    let entries = parse_config(Some("txindex=1\nthis is no pair\n"));

    assert!(!entries.is_empty());
    let enabled_count = entries.iter().filter(|e| e.enabled).count();
    assert_eq!(enabled_count, 0);

    let txindex = entries.iter().find(|e| e.key == "txindex").unwrap();
    assert_eq!(txindex.value, "0");
    assert!(!txindex.enabled);
}

#[test]
fn parse_config_trims_whitespace_and_crlf() {
    let entries = parse_config(Some("  txindex = 1 \r\nrpcuser= alice\r\n"));

    let txindex = entries.iter().find(|e| e.key == "txindex").unwrap();
    assert_eq!(txindex.value, "1");
    assert!(txindex.enabled);

    let rpcuser = entries.iter().find(|e| e.key == "rpcuser").unwrap();
    assert_eq!(rpcuser.value, "alice");
}

#[test]
fn parse_config_bool_zero_enabled() {
    // a boolean key set to 0 is still found, and so enabled
    let entries = parse_config(Some("listen=0\n"));

    let listen = entries.iter().find(|e| e.key == "listen").unwrap();
    assert_eq!(listen.value, "0");
    assert!(listen.enabled);
}
