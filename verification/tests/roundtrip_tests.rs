use bitconf::config::BitcoinConfigFile;
use std::collections::BTreeMap;

fn enabled_map(doc: &BitcoinConfigFile) -> BTreeMap<String, String> {
    doc.enabled_entries()
        .iter()
        .map(|e| (e.key.clone(), e.value.clone()))
        .collect()
}

#[test]
fn round_trip_preserves_enabled_entries() {
    let mut doc = BitcoinConfigFile::new("bitcoin.conf");
    doc.set("txindex", "1");
    doc.set("rpcuser", "alice");
    doc.set("maxconnections", "40");
    doc.set("zmqpubhashtx", "tcp://127.0.0.1:28333");
    doc.add_custom("myextra", "7");

    let written = doc.to_config_string();
    let reloaded = BitcoinConfigFile::open("bitcoin.conf", Some(written.as_str()));

    assert_eq!(enabled_map(&doc), enabled_map(&reloaded));
}

#[test]
fn round_trip_of_empty_document_is_empty() {
    let doc = BitcoinConfigFile::new("bitcoin.conf");
    let written = doc.to_config_string();
    let reloaded = BitcoinConfigFile::open("bitcoin.conf", Some(written.as_str()));

    assert!(enabled_map(&doc).is_empty());
    assert!(enabled_map(&reloaded).is_empty());
}

#[test]
fn main_section_wins_over_test_section() {
    // `main` precedes `test` in the fixed probe order, independent of any
    // chain selection
    let content = "[main]\nrpcport=8332\n\n[test]\nrpcport=18332";
    let doc = BitcoinConfigFile::open("bitcoin.conf", Some(content));

    let rpcport = doc.get("rpcport").unwrap();
    assert_eq!(rpcport.value, "8332");
    assert!(rpcport.enabled);
}

#[test]
fn top_level_wins_over_main_section() {
    let content = "rpcport=8331\n[main]\nrpcport=8332\n";
    let doc = BitcoinConfigFile::open("bitcoin.conf", Some(content));

    // the unnamed top-level section is probed before `main`
    let rpcport = doc.get("rpcport").unwrap();
    assert_eq!(rpcport.value, "8331");
}

#[test]
fn disable_save_reload_restores_catalog_default() {
    let mut doc = BitcoinConfigFile::open("bitcoin.conf", Some("dbcache=1000\n"));
    assert_eq!(doc.get("dbcache").unwrap().value, "1000");
    assert!(doc.get("dbcache").unwrap().enabled);

    assert!(doc.disable("dbcache"));
    let written = doc.to_config_string();
    let reloaded = BitcoinConfigFile::open("bitcoin.conf", Some(written.as_str()));

    let dbcache = reloaded.get("dbcache").unwrap();
    assert_eq!(dbcache.value, "450");
    assert!(!dbcache.enabled);
}

#[test]
fn disabled_custom_key_disappears_on_reload() {
    let mut doc = BitcoinConfigFile::new("bitcoin.conf");
    doc.add_custom("myextra", "7");
    assert!(doc.disable("myextra"));

    let written = doc.to_config_string();
    let reloaded = BitcoinConfigFile::open("bitcoin.conf", Some(written.as_str()));

    assert!(reloaded.get("myextra").is_none());
}

#[test]
fn omitted_catalog_key_comes_back_default_disabled() {
    let doc = BitcoinConfigFile::open("bitcoin.conf", Some("server=1\n"));

    // every catalog key the file omits is present at its default, disabled
    let port = doc.get("port").unwrap();
    assert_eq!(port.value, "8333");
    assert!(!port.enabled);

    let keypool = doc.get("keypool").unwrap();
    assert_eq!(keypool.value, "1000");
    assert!(!keypool.enabled);
}

#[test]
fn boolean_key_parses_one_and_zero() {
    let doc = BitcoinConfigFile::open("bitcoin.conf", Some("txindex=1\n"));
    let e = doc.get("txindex").unwrap();
    assert_eq!(e.value, "1");
    assert!(e.enabled);

    let doc = BitcoinConfigFile::open("bitcoin.conf", Some("txindex=0\n"));
    let e = doc.get("txindex").unwrap();
    assert_eq!(e.value, "0");
    assert!(e.enabled);
}

#[test]
fn value_may_contain_equals_sign() {
    let doc = BitcoinConfigFile::open("bitcoin.conf", Some("alertnotify=echo a=b\n"));
    let e = doc.get("alertnotify").unwrap();
    assert_eq!(e.value, "echo a=b");
}
