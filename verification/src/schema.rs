//! The schema catalog: the fixed registry of every option the daemon
//! recognizes, with its default value, kind, category and description.
use vstd::prelude::*;

verus! {

/// Kind of a configuration option value.  Purely descriptive metadata: the
/// stored value is always text and is never validated against this kind.
#[derive(Debug, Clone, Copy, PartialEq, Eq, Structural)]
pub enum ConfigType {
    Bool,
    Int,
    Float,
    String,
    Path,
    Address,
}

/// Category of a configuration option, used to group entries for display
/// and to order the groups deterministically on save.
#[derive(Debug, Clone, Copy, PartialEq, Eq, Structural)]
pub enum ConfigCategory {
    Core,
    Network,
    RPC,
    Wallet,
    Debugging,
    Mining,
    Relay,
    ZMQ,
}

/// Mathematical model of one catalog record.
pub ghost struct SchemaModel {
    pub key: Seq<char>,
    pub default: Seq<char>,
    pub config_type: ConfigType,
    pub category: ConfigCategory,
    pub description: Seq<char>,
}

/// Abbreviation used to write the catalog down at the specification level.
pub open spec fn sm(
    key: &str,
    default: &str,
    config_type: ConfigType,
    category: ConfigCategory,
    description: &str,
) -> SchemaModel {
    SchemaModel {
        key: key@,
        default: default@,
        config_type,
        category,
        description: description@,
    }
}

/// Schema for a single configuration option.
#[derive(Debug, Clone)]
pub struct ConfigSchema {
    pub key: String,
    pub default: String,
    pub config_type: ConfigType,
    pub category: ConfigCategory,
    pub description: String,
}

impl View for ConfigSchema {
    type V = SchemaModel;

    open spec fn view(&self) -> SchemaModel {
        SchemaModel {
            key: self.key@,
            default: self.default@,
            config_type: self.config_type,
            category: self.category,
            description: self.description@,
        }
    }
}

impl ConfigSchema {
    pub fn new(
        key: &str,
        default: &str,
        config_type: ConfigType,
        category: ConfigCategory,
        description: &str,
    ) -> (r: Self)
        ensures
            r@ == sm(key, default, config_type, category, description),
    {
        ConfigSchema {
            key: key.to_owned(),
            default: default.to_owned(),
            config_type,
            category,
            description: description.to_owned(),
        }
    }

    /// An equal copy of the record.  The derived `Clone` carries no
    /// contract, so verified code copies records through this method.
    pub fn duplicate(&self) -> (r: Self)
        ensures
            r@ == self@,
    {
        ConfigSchema {
            key: self.key.clone(),
            default: self.default.clone(),
            config_type: self.config_type,
            category: self.category,
            description: self.description.clone(),
        }
    }
}

/// The Core records of the catalog.
pub open spec fn core_catalog() -> Seq<SchemaModel> {
    seq![
        sm("datadir", "", ConfigType::Path, ConfigCategory::Core, "Specify data directory"),
        sm("blocksdir", "", ConfigType::Path, ConfigCategory::Core, "Specify blocks directory"),
        sm("pid", "", ConfigType::Path, ConfigCategory::Core, "Specify pid file"),
        sm("debuglogfile", "", ConfigType::Path, ConfigCategory::Core, "Specify debug log file"),
        sm("settings", "", ConfigType::Path, ConfigCategory::Core, "Specify settings file"),
        sm("includeconf", "", ConfigType::Path, ConfigCategory::Core, "Include additional config file"),
        sm("loadblock", "", ConfigType::Path, ConfigCategory::Core, "Import blocks from external file"),
        sm("txindex", "0", ConfigType::Bool, ConfigCategory::Core, "Maintain full transaction index"),
        sm("blockfilterindex", "", ConfigType::String, ConfigCategory::Core, "Maintain compact block filter index"),
        sm("coinstatsindex", "0", ConfigType::Bool, ConfigCategory::Core, "Maintain coinstats index"),
        sm("prune", "0", ConfigType::Int, ConfigCategory::Core, "Reduce storage by pruning old blocks"),
        sm("dbcache", "450", ConfigType::Int, ConfigCategory::Core, "Database cache size in MiB"),
        sm("maxmempool", "300", ConfigType::Int, ConfigCategory::Core, "Maximum mempool size in MiB"),
        sm("maxorphantx", "100", ConfigType::Int, ConfigCategory::Core, "Maximum orphan transactions"),
        sm("mempoolexpiry", "336", ConfigType::Int, ConfigCategory::Core, "Mempool expiry in hours"),
        sm("par", "0", ConfigType::Int, ConfigCategory::Core, "Script verification threads"),
        sm("blockreconstructionextratxn", "100", ConfigType::Int, ConfigCategory::Core, "Extra transactions for block reconstruction"),
        sm("blocksonly", "0", ConfigType::Bool, ConfigCategory::Core, "Reject transactions from network peers"),
        sm("persistmempool", "1", ConfigType::Bool, ConfigCategory::Core, "Save mempool on shutdown"),
        sm("reindex", "0", ConfigType::Bool, ConfigCategory::Core, "Rebuild chain state and block index"),
        sm("reindex-chainstate", "0", ConfigType::Bool, ConfigCategory::Core, "Rebuild chain state from blocks"),
        sm("sysperms", "0", ConfigType::Bool, ConfigCategory::Core, "Create files with system default permissions"),
        sm("daemon", "0", ConfigType::Bool, ConfigCategory::Core, "Run in background as daemon"),
        sm("daemonwait", "0", ConfigType::Bool, ConfigCategory::Core, "Wait for initialization before backgrounding"),
        sm("alertnotify", "", ConfigType::String, ConfigCategory::Core, "Command to execute on alert"),
        sm("blocknotify", "", ConfigType::String, ConfigCategory::Core, "Command to execute on new block"),
        sm("startupnotify", "", ConfigType::String, ConfigCategory::Core, "Command to execute on startup"),
        sm("assumevalid", "", ConfigType::String, ConfigCategory::Core, "Assume blocks are valid up to this hash"),
    ]
}

/// The Network records of the catalog.
pub open spec fn network_catalog() -> Seq<SchemaModel> {
    seq![
        sm("chain", "main", ConfigType::String, ConfigCategory::Network, "Chain to use (main, test, signet, regtest)"),
        sm("testnet", "0", ConfigType::Bool, ConfigCategory::Network, "Use testnet"),
        sm("regtest", "0", ConfigType::Bool, ConfigCategory::Network, "Use regtest"),
        sm("signet", "0", ConfigType::Bool, ConfigCategory::Network, "Use signet"),
        sm("signetchallenge", "", ConfigType::String, ConfigCategory::Network, "Signet challenge script"),
        sm("signetseednode", "", ConfigType::String, ConfigCategory::Network, "Signet seed node"),
        sm("listen", "1", ConfigType::Bool, ConfigCategory::Network, "Accept incoming connections"),
        sm("bind", "", ConfigType::Address, ConfigCategory::Network, "Bind to address"),
        sm("whitebind", "", ConfigType::Address, ConfigCategory::Network, "Bind with whitelist permissions"),
        sm("port", "8333", ConfigType::Int, ConfigCategory::Network, "Listen on port"),
        sm("maxconnections", "125", ConfigType::Int, ConfigCategory::Network, "Maximum peer connections"),
        sm("maxreceivebuffer", "5000", ConfigType::Int, ConfigCategory::Network, "Maximum receive buffer per connection"),
        sm("maxsendbuffer", "1000", ConfigType::Int, ConfigCategory::Network, "Maximum send buffer per connection"),
        sm("maxuploadtarget", "0", ConfigType::Int, ConfigCategory::Network, "Maximum upload target in MiB per day"),
        sm("timeout", "5000", ConfigType::Int, ConfigCategory::Network, "Connection timeout in milliseconds"),
        sm("maxtimeadjustment", "4200", ConfigType::Int, ConfigCategory::Network, "Maximum time adjustment in seconds"),
        sm("bantime", "86400", ConfigType::Int, ConfigCategory::Network, "Ban duration in seconds"),
        sm("discover", "1", ConfigType::Bool, ConfigCategory::Network, "Discover own IP address"),
        sm("dns", "1", ConfigType::Bool, ConfigCategory::Network, "Allow DNS lookups"),
        sm("dnsseed", "1", ConfigType::Bool, ConfigCategory::Network, "Query DNS seeds"),
        sm("fixedseeds", "1", ConfigType::Bool, ConfigCategory::Network, "Use fixed seeds if DNS fails"),
        sm("forcednsseed", "0", ConfigType::Bool, ConfigCategory::Network, "Always query DNS seeds"),
        sm("seednode", "", ConfigType::Address, ConfigCategory::Network, "Connect to seed node for addresses"),
        sm("addnode", "", ConfigType::Address, ConfigCategory::Network, "Add node to connect to"),
        sm("connect", "", ConfigType::Address, ConfigCategory::Network, "Connect only to specified node"),
        sm("onlynet", "", ConfigType::String, ConfigCategory::Network, "Only connect to network type"),
        sm("networkactive", "1", ConfigType::Bool, ConfigCategory::Network, "Enable network activity"),
        sm("proxy", "", ConfigType::Address, ConfigCategory::Network, "SOCKS5 proxy"),
        sm("proxyrandomize", "1", ConfigType::Bool, ConfigCategory::Network, "Randomize proxy credentials"),
        sm("onion", "", ConfigType::Address, ConfigCategory::Network, "SOCKS5 proxy for Tor"),
        sm("listenonion", "1", ConfigType::Bool, ConfigCategory::Network, "Create Tor onion service"),
        sm("torcontrol", "127.0.0.1:9051", ConfigType::Address, ConfigCategory::Network, "Tor control port"),
        sm("torpassword", "", ConfigType::String, ConfigCategory::Network, "Tor control password"),
        sm("i2psam", "", ConfigType::Address, ConfigCategory::Network, "I2P SAM proxy"),
        sm("i2pacceptincoming", "1", ConfigType::Bool, ConfigCategory::Network, "Accept incoming I2P connections"),
        sm("cjdnsreachable", "0", ConfigType::Bool, ConfigCategory::Network, "CJDNS reachable"),
        sm("whitelist", "", ConfigType::String, ConfigCategory::Network, "Whitelist peers"),
        sm("peerblockfilters", "0", ConfigType::Bool, ConfigCategory::Network, "Serve compact block filters"),
        sm("peerbloomfilters", "0", ConfigType::Bool, ConfigCategory::Network, "Support bloom filters"),
        sm("permitbaremultisig", "1", ConfigType::Bool, ConfigCategory::Network, "Relay bare multisig"),
        sm("externalip", "", ConfigType::Address, ConfigCategory::Network, "Specify external IP"),
        sm("upnp", "0", ConfigType::Bool, ConfigCategory::Network, "Use UPnP for port mapping"),
        sm("asmap", "", ConfigType::Path, ConfigCategory::Network, "ASN mapping file"),
    ]
}

/// The RPC records of the catalog.
pub open spec fn rpc_catalog() -> Seq<SchemaModel> {
    seq![
        sm("server", "0", ConfigType::Bool, ConfigCategory::RPC, "Accept RPC commands"),
        sm("rpcuser", "", ConfigType::String, ConfigCategory::RPC, "RPC username"),
        sm("rpcpassword", "", ConfigType::String, ConfigCategory::RPC, "RPC password"),
        sm("rpcauth", "", ConfigType::String, ConfigCategory::RPC, "RPC auth credentials"),
        sm("rpccookiefile", "", ConfigType::Path, ConfigCategory::RPC, "RPC cookie file location"),
        sm("rpcport", "8332", ConfigType::Int, ConfigCategory::RPC, "RPC port"),
        sm("rpcbind", "", ConfigType::Address, ConfigCategory::RPC, "RPC bind address"),
        sm("rpcallowip", "", ConfigType::String, ConfigCategory::RPC, "Allow RPC from IP"),
        sm("rpcthreads", "4", ConfigType::Int, ConfigCategory::RPC, "RPC worker threads"),
        sm("rpcserialversion", "1", ConfigType::Int, ConfigCategory::RPC, "RPC serialization version"),
        sm("rpcwhitelist", "", ConfigType::String, ConfigCategory::RPC, "RPC method whitelist"),
        sm("rpcwhitelistdefault", "1", ConfigType::Bool, ConfigCategory::RPC, "Default RPC whitelist behavior"),
        sm("rest", "0", ConfigType::Bool, ConfigCategory::RPC, "Enable REST interface"),
    ]
}

/// The Wallet records of the catalog.
pub open spec fn wallet_catalog() -> Seq<SchemaModel> {
    seq![
        sm("disablewallet", "0", ConfigType::Bool, ConfigCategory::Wallet, "Disable wallet"),
        sm("wallet", "", ConfigType::Path, ConfigCategory::Wallet, "Wallet to load"),
        sm("walletdir", "", ConfigType::Path, ConfigCategory::Wallet, "Wallet directory"),
        sm("addresstype", "bech32", ConfigType::String, ConfigCategory::Wallet, "Default address type"),
        sm("changetype", "", ConfigType::String, ConfigCategory::Wallet, "Change address type"),
        sm("fallbackfee", "0.00", ConfigType::Float, ConfigCategory::Wallet, "Fallback fee rate"),
        sm("discardfee", "0.0001", ConfigType::Float, ConfigCategory::Wallet, "Discard fee threshold"),
        sm("mintxfee", "0.00001", ConfigType::Float, ConfigCategory::Wallet, "Minimum transaction fee"),
        sm("paytxfee", "0.00", ConfigType::Float, ConfigCategory::Wallet, "Transaction fee rate"),
        sm("consolidatefeerate", "0.0001", ConfigType::Float, ConfigCategory::Wallet, "Consolidation fee rate"),
        sm("maxapsfee", "0.00", ConfigType::Float, ConfigCategory::Wallet, "Max fee for partial spend avoidance"),
        sm("txconfirmtarget", "6", ConfigType::Int, ConfigCategory::Wallet, "Confirmation target blocks"),
        sm("spendzeroconfchange", "1", ConfigType::Bool, ConfigCategory::Wallet, "Spend unconfirmed change"),
        sm("walletrbf", "0", ConfigType::Bool, ConfigCategory::Wallet, "Enable wallet RBF"),
        sm("avoidpartialspends", "0", ConfigType::Bool, ConfigCategory::Wallet, "Avoid partial spends"),
        sm("keypool", "1000", ConfigType::Int, ConfigCategory::Wallet, "Keypool size"),
        sm("signer", "", ConfigType::String, ConfigCategory::Wallet, "External signer command"),
        sm("walletbroadcast", "1", ConfigType::Bool, ConfigCategory::Wallet, "Broadcast wallet transactions"),
        sm("walletnotify", "", ConfigType::String, ConfigCategory::Wallet, "Command on wallet transaction"),
    ]
}

/// The Debugging records of the catalog.
pub open spec fn debugging_catalog() -> Seq<SchemaModel> {
    seq![
        sm("debug", "", ConfigType::String, ConfigCategory::Debugging, "Debug categories"),
        sm("debugexclude", "", ConfigType::String, ConfigCategory::Debugging, "Exclude debug categories"),
        sm("logips", "0", ConfigType::Bool, ConfigCategory::Debugging, "Log IP addresses"),
        sm("logsourcelocations", "0", ConfigType::Bool, ConfigCategory::Debugging, "Log source locations"),
        sm("logthreadnames", "0", ConfigType::Bool, ConfigCategory::Debugging, "Log thread names"),
        sm("logtimestamps", "1", ConfigType::Bool, ConfigCategory::Debugging, "Log timestamps"),
        sm("shrinkdebugfile", "1", ConfigType::Bool, ConfigCategory::Debugging, "Shrink debug.log on startup"),
        sm("printtoconsole", "0", ConfigType::Bool, ConfigCategory::Debugging, "Print to console"),
        sm("uacomment", "", ConfigType::String, ConfigCategory::Debugging, "User agent comment"),
        sm("maxtxfee", "0.10", ConfigType::Float, ConfigCategory::Debugging, "Maximum transaction fee"),
    ]
}

/// The Mining records of the catalog.
pub open spec fn mining_catalog() -> Seq<SchemaModel> {
    seq![
        sm("blockmaxweight", "3996000", ConfigType::Int, ConfigCategory::Mining, "Maximum block weight"),
        sm("blockmintxfee", "0.00001", ConfigType::Float, ConfigCategory::Mining, "Minimum block transaction fee"),
    ]
}

/// The Relay records of the catalog.
pub open spec fn relay_catalog() -> Seq<SchemaModel> {
    seq![
        sm("minrelaytxfee", "0.00001", ConfigType::Float, ConfigCategory::Relay, "Minimum relay fee"),
        sm("datacarrier", "1", ConfigType::Bool, ConfigCategory::Relay, "Relay OP_RETURN transactions"),
        sm("datacarriersize", "83", ConfigType::Int, ConfigCategory::Relay, "Maximum OP_RETURN size"),
        sm("bytespersigop", "20", ConfigType::Int, ConfigCategory::Relay, "Bytes per sigop"),
        sm("whitelistforcerelay", "0", ConfigType::Bool, ConfigCategory::Relay, "Force relay from whitelist"),
        sm("whitelistrelay", "1", ConfigType::Bool, ConfigCategory::Relay, "Relay from whitelist"),
    ]
}

/// The ZMQ records of the catalog.
pub open spec fn zmq_catalog() -> Seq<SchemaModel> {
    seq![
        sm("zmqpubhashblock", "", ConfigType::Address, ConfigCategory::ZMQ, "ZMQ hash block publisher"),
        sm("zmqpubhashtx", "", ConfigType::Address, ConfigCategory::ZMQ, "ZMQ hash tx publisher"),
        sm("zmqpubrawblock", "", ConfigType::Address, ConfigCategory::ZMQ, "ZMQ raw block publisher"),
        sm("zmqpubrawtx", "", ConfigType::Address, ConfigCategory::ZMQ, "ZMQ raw tx publisher"),
        sm("zmqpubsequence", "", ConfigType::Address, ConfigCategory::ZMQ, "ZMQ sequence publisher"),
    ]
}

/// The full catalog: every option the daemon recognizes, in the fixed
/// order in which the registry lists them.
pub open spec fn catalog() -> Seq<SchemaModel> {
    core_catalog() + network_catalog() + rpc_catalog() + wallet_catalog() + debugging_catalog() + mining_catalog() + relay_catalog() + zmq_catalog()
}

/// Whether some catalog record uses the key `k`.
pub open spec fn catalog_has_key(k: Seq<char>) -> bool {
    exists|i: int| 0 <= i < catalog().len() && catalog()[i].key == k
}

#[verifier::rlimit(60)]
fn core_schemas() -> (v: Vec<ConfigSchema>)
    ensures
        v@.len() == core_catalog().len(),
        forall|i: int| 0 <= i < v@.len() ==> v@[i]@ == core_catalog()[i],
{
    let mut v: Vec<ConfigSchema> = Vec::new();
    v.push(ConfigSchema::new("datadir", "", ConfigType::Path, ConfigCategory::Core, "Specify data directory"));
    v.push(ConfigSchema::new("blocksdir", "", ConfigType::Path, ConfigCategory::Core, "Specify blocks directory"));
    v.push(ConfigSchema::new("pid", "", ConfigType::Path, ConfigCategory::Core, "Specify pid file"));
    v.push(ConfigSchema::new("debuglogfile", "", ConfigType::Path, ConfigCategory::Core, "Specify debug log file"));
    v.push(ConfigSchema::new("settings", "", ConfigType::Path, ConfigCategory::Core, "Specify settings file"));
    v.push(ConfigSchema::new("includeconf", "", ConfigType::Path, ConfigCategory::Core, "Include additional config file"));
    v.push(ConfigSchema::new("loadblock", "", ConfigType::Path, ConfigCategory::Core, "Import blocks from external file"));
    v.push(ConfigSchema::new("txindex", "0", ConfigType::Bool, ConfigCategory::Core, "Maintain full transaction index"));
    v.push(ConfigSchema::new("blockfilterindex", "", ConfigType::String, ConfigCategory::Core, "Maintain compact block filter index"));
    v.push(ConfigSchema::new("coinstatsindex", "0", ConfigType::Bool, ConfigCategory::Core, "Maintain coinstats index"));
    v.push(ConfigSchema::new("prune", "0", ConfigType::Int, ConfigCategory::Core, "Reduce storage by pruning old blocks"));
    v.push(ConfigSchema::new("dbcache", "450", ConfigType::Int, ConfigCategory::Core, "Database cache size in MiB"));
    v.push(ConfigSchema::new("maxmempool", "300", ConfigType::Int, ConfigCategory::Core, "Maximum mempool size in MiB"));
    v.push(ConfigSchema::new("maxorphantx", "100", ConfigType::Int, ConfigCategory::Core, "Maximum orphan transactions"));
    v.push(ConfigSchema::new("mempoolexpiry", "336", ConfigType::Int, ConfigCategory::Core, "Mempool expiry in hours"));
    v.push(ConfigSchema::new("par", "0", ConfigType::Int, ConfigCategory::Core, "Script verification threads"));
    v.push(ConfigSchema::new("blockreconstructionextratxn", "100", ConfigType::Int, ConfigCategory::Core, "Extra transactions for block reconstruction"));
    v.push(ConfigSchema::new("blocksonly", "0", ConfigType::Bool, ConfigCategory::Core, "Reject transactions from network peers"));
    v.push(ConfigSchema::new("persistmempool", "1", ConfigType::Bool, ConfigCategory::Core, "Save mempool on shutdown"));
    v.push(ConfigSchema::new("reindex", "0", ConfigType::Bool, ConfigCategory::Core, "Rebuild chain state and block index"));
    v.push(ConfigSchema::new("reindex-chainstate", "0", ConfigType::Bool, ConfigCategory::Core, "Rebuild chain state from blocks"));
    v.push(ConfigSchema::new("sysperms", "0", ConfigType::Bool, ConfigCategory::Core, "Create files with system default permissions"));
    v.push(ConfigSchema::new("daemon", "0", ConfigType::Bool, ConfigCategory::Core, "Run in background as daemon"));
    v.push(ConfigSchema::new("daemonwait", "0", ConfigType::Bool, ConfigCategory::Core, "Wait for initialization before backgrounding"));
    v.push(ConfigSchema::new("alertnotify", "", ConfigType::String, ConfigCategory::Core, "Command to execute on alert"));
    v.push(ConfigSchema::new("blocknotify", "", ConfigType::String, ConfigCategory::Core, "Command to execute on new block"));
    v.push(ConfigSchema::new("startupnotify", "", ConfigType::String, ConfigCategory::Core, "Command to execute on startup"));
    v.push(ConfigSchema::new("assumevalid", "", ConfigType::String, ConfigCategory::Core, "Assume blocks are valid up to this hash"));
    v
}

#[verifier::rlimit(60)]
fn network_schemas() -> (v: Vec<ConfigSchema>)
    ensures
        v@.len() == network_catalog().len(),
        forall|i: int| 0 <= i < v@.len() ==> v@[i]@ == network_catalog()[i],
{
    let mut v: Vec<ConfigSchema> = Vec::new();
    v.push(ConfigSchema::new("chain", "main", ConfigType::String, ConfigCategory::Network, "Chain to use (main, test, signet, regtest)"));
    v.push(ConfigSchema::new("testnet", "0", ConfigType::Bool, ConfigCategory::Network, "Use testnet"));
    v.push(ConfigSchema::new("regtest", "0", ConfigType::Bool, ConfigCategory::Network, "Use regtest"));
    v.push(ConfigSchema::new("signet", "0", ConfigType::Bool, ConfigCategory::Network, "Use signet"));
    v.push(ConfigSchema::new("signetchallenge", "", ConfigType::String, ConfigCategory::Network, "Signet challenge script"));
    v.push(ConfigSchema::new("signetseednode", "", ConfigType::String, ConfigCategory::Network, "Signet seed node"));
    v.push(ConfigSchema::new("listen", "1", ConfigType::Bool, ConfigCategory::Network, "Accept incoming connections"));
    v.push(ConfigSchema::new("bind", "", ConfigType::Address, ConfigCategory::Network, "Bind to address"));
    v.push(ConfigSchema::new("whitebind", "", ConfigType::Address, ConfigCategory::Network, "Bind with whitelist permissions"));
    v.push(ConfigSchema::new("port", "8333", ConfigType::Int, ConfigCategory::Network, "Listen on port"));
    v.push(ConfigSchema::new("maxconnections", "125", ConfigType::Int, ConfigCategory::Network, "Maximum peer connections"));
    v.push(ConfigSchema::new("maxreceivebuffer", "5000", ConfigType::Int, ConfigCategory::Network, "Maximum receive buffer per connection"));
    v.push(ConfigSchema::new("maxsendbuffer", "1000", ConfigType::Int, ConfigCategory::Network, "Maximum send buffer per connection"));
    v.push(ConfigSchema::new("maxuploadtarget", "0", ConfigType::Int, ConfigCategory::Network, "Maximum upload target in MiB per day"));
    v.push(ConfigSchema::new("timeout", "5000", ConfigType::Int, ConfigCategory::Network, "Connection timeout in milliseconds"));
    v.push(ConfigSchema::new("maxtimeadjustment", "4200", ConfigType::Int, ConfigCategory::Network, "Maximum time adjustment in seconds"));
    v.push(ConfigSchema::new("bantime", "86400", ConfigType::Int, ConfigCategory::Network, "Ban duration in seconds"));
    v.push(ConfigSchema::new("discover", "1", ConfigType::Bool, ConfigCategory::Network, "Discover own IP address"));
    v.push(ConfigSchema::new("dns", "1", ConfigType::Bool, ConfigCategory::Network, "Allow DNS lookups"));
    v.push(ConfigSchema::new("dnsseed", "1", ConfigType::Bool, ConfigCategory::Network, "Query DNS seeds"));
    v.push(ConfigSchema::new("fixedseeds", "1", ConfigType::Bool, ConfigCategory::Network, "Use fixed seeds if DNS fails"));
    v.push(ConfigSchema::new("forcednsseed", "0", ConfigType::Bool, ConfigCategory::Network, "Always query DNS seeds"));
    v.push(ConfigSchema::new("seednode", "", ConfigType::Address, ConfigCategory::Network, "Connect to seed node for addresses"));
    v.push(ConfigSchema::new("addnode", "", ConfigType::Address, ConfigCategory::Network, "Add node to connect to"));
    v.push(ConfigSchema::new("connect", "", ConfigType::Address, ConfigCategory::Network, "Connect only to specified node"));
    v.push(ConfigSchema::new("onlynet", "", ConfigType::String, ConfigCategory::Network, "Only connect to network type"));
    v.push(ConfigSchema::new("networkactive", "1", ConfigType::Bool, ConfigCategory::Network, "Enable network activity"));
    v.push(ConfigSchema::new("proxy", "", ConfigType::Address, ConfigCategory::Network, "SOCKS5 proxy"));
    v.push(ConfigSchema::new("proxyrandomize", "1", ConfigType::Bool, ConfigCategory::Network, "Randomize proxy credentials"));
    v.push(ConfigSchema::new("onion", "", ConfigType::Address, ConfigCategory::Network, "SOCKS5 proxy for Tor"));
    v.push(ConfigSchema::new("listenonion", "1", ConfigType::Bool, ConfigCategory::Network, "Create Tor onion service"));
    v.push(ConfigSchema::new("torcontrol", "127.0.0.1:9051", ConfigType::Address, ConfigCategory::Network, "Tor control port"));
    v.push(ConfigSchema::new("torpassword", "", ConfigType::String, ConfigCategory::Network, "Tor control password"));
    v.push(ConfigSchema::new("i2psam", "", ConfigType::Address, ConfigCategory::Network, "I2P SAM proxy"));
    v.push(ConfigSchema::new("i2pacceptincoming", "1", ConfigType::Bool, ConfigCategory::Network, "Accept incoming I2P connections"));
    v.push(ConfigSchema::new("cjdnsreachable", "0", ConfigType::Bool, ConfigCategory::Network, "CJDNS reachable"));
    v.push(ConfigSchema::new("whitelist", "", ConfigType::String, ConfigCategory::Network, "Whitelist peers"));
    v.push(ConfigSchema::new("peerblockfilters", "0", ConfigType::Bool, ConfigCategory::Network, "Serve compact block filters"));
    v.push(ConfigSchema::new("peerbloomfilters", "0", ConfigType::Bool, ConfigCategory::Network, "Support bloom filters"));
    v.push(ConfigSchema::new("permitbaremultisig", "1", ConfigType::Bool, ConfigCategory::Network, "Relay bare multisig"));
    v.push(ConfigSchema::new("externalip", "", ConfigType::Address, ConfigCategory::Network, "Specify external IP"));
    v.push(ConfigSchema::new("upnp", "0", ConfigType::Bool, ConfigCategory::Network, "Use UPnP for port mapping"));
    v.push(ConfigSchema::new("asmap", "", ConfigType::Path, ConfigCategory::Network, "ASN mapping file"));
    v
}

#[verifier::rlimit(60)]
fn rpc_schemas() -> (v: Vec<ConfigSchema>)
    ensures
        v@.len() == rpc_catalog().len(),
        forall|i: int| 0 <= i < v@.len() ==> v@[i]@ == rpc_catalog()[i],
{
    let mut v: Vec<ConfigSchema> = Vec::new();
    v.push(ConfigSchema::new("server", "0", ConfigType::Bool, ConfigCategory::RPC, "Accept RPC commands"));
    v.push(ConfigSchema::new("rpcuser", "", ConfigType::String, ConfigCategory::RPC, "RPC username"));
    v.push(ConfigSchema::new("rpcpassword", "", ConfigType::String, ConfigCategory::RPC, "RPC password"));
    v.push(ConfigSchema::new("rpcauth", "", ConfigType::String, ConfigCategory::RPC, "RPC auth credentials"));
    v.push(ConfigSchema::new("rpccookiefile", "", ConfigType::Path, ConfigCategory::RPC, "RPC cookie file location"));
    v.push(ConfigSchema::new("rpcport", "8332", ConfigType::Int, ConfigCategory::RPC, "RPC port"));
    v.push(ConfigSchema::new("rpcbind", "", ConfigType::Address, ConfigCategory::RPC, "RPC bind address"));
    v.push(ConfigSchema::new("rpcallowip", "", ConfigType::String, ConfigCategory::RPC, "Allow RPC from IP"));
    v.push(ConfigSchema::new("rpcthreads", "4", ConfigType::Int, ConfigCategory::RPC, "RPC worker threads"));
    v.push(ConfigSchema::new("rpcserialversion", "1", ConfigType::Int, ConfigCategory::RPC, "RPC serialization version"));
    v.push(ConfigSchema::new("rpcwhitelist", "", ConfigType::String, ConfigCategory::RPC, "RPC method whitelist"));
    v.push(ConfigSchema::new("rpcwhitelistdefault", "1", ConfigType::Bool, ConfigCategory::RPC, "Default RPC whitelist behavior"));
    v.push(ConfigSchema::new("rest", "0", ConfigType::Bool, ConfigCategory::RPC, "Enable REST interface"));
    v
}

#[verifier::rlimit(60)]
fn wallet_schemas() -> (v: Vec<ConfigSchema>)
    ensures
        v@.len() == wallet_catalog().len(),
        forall|i: int| 0 <= i < v@.len() ==> v@[i]@ == wallet_catalog()[i],
{
    let mut v: Vec<ConfigSchema> = Vec::new();
    v.push(ConfigSchema::new("disablewallet", "0", ConfigType::Bool, ConfigCategory::Wallet, "Disable wallet"));
    v.push(ConfigSchema::new("wallet", "", ConfigType::Path, ConfigCategory::Wallet, "Wallet to load"));
    v.push(ConfigSchema::new("walletdir", "", ConfigType::Path, ConfigCategory::Wallet, "Wallet directory"));
    v.push(ConfigSchema::new("addresstype", "bech32", ConfigType::String, ConfigCategory::Wallet, "Default address type"));
    v.push(ConfigSchema::new("changetype", "", ConfigType::String, ConfigCategory::Wallet, "Change address type"));
    v.push(ConfigSchema::new("fallbackfee", "0.00", ConfigType::Float, ConfigCategory::Wallet, "Fallback fee rate"));
    v.push(ConfigSchema::new("discardfee", "0.0001", ConfigType::Float, ConfigCategory::Wallet, "Discard fee threshold"));
    v.push(ConfigSchema::new("mintxfee", "0.00001", ConfigType::Float, ConfigCategory::Wallet, "Minimum transaction fee"));
    v.push(ConfigSchema::new("paytxfee", "0.00", ConfigType::Float, ConfigCategory::Wallet, "Transaction fee rate"));
    v.push(ConfigSchema::new("consolidatefeerate", "0.0001", ConfigType::Float, ConfigCategory::Wallet, "Consolidation fee rate"));
    v.push(ConfigSchema::new("maxapsfee", "0.00", ConfigType::Float, ConfigCategory::Wallet, "Max fee for partial spend avoidance"));
    v.push(ConfigSchema::new("txconfirmtarget", "6", ConfigType::Int, ConfigCategory::Wallet, "Confirmation target blocks"));
    v.push(ConfigSchema::new("spendzeroconfchange", "1", ConfigType::Bool, ConfigCategory::Wallet, "Spend unconfirmed change"));
    v.push(ConfigSchema::new("walletrbf", "0", ConfigType::Bool, ConfigCategory::Wallet, "Enable wallet RBF"));
    v.push(ConfigSchema::new("avoidpartialspends", "0", ConfigType::Bool, ConfigCategory::Wallet, "Avoid partial spends"));
    v.push(ConfigSchema::new("keypool", "1000", ConfigType::Int, ConfigCategory::Wallet, "Keypool size"));
    v.push(ConfigSchema::new("signer", "", ConfigType::String, ConfigCategory::Wallet, "External signer command"));
    v.push(ConfigSchema::new("walletbroadcast", "1", ConfigType::Bool, ConfigCategory::Wallet, "Broadcast wallet transactions"));
    v.push(ConfigSchema::new("walletnotify", "", ConfigType::String, ConfigCategory::Wallet, "Command on wallet transaction"));
    v
}

#[verifier::rlimit(60)]
fn debugging_schemas() -> (v: Vec<ConfigSchema>)
    ensures
        v@.len() == debugging_catalog().len(),
        forall|i: int| 0 <= i < v@.len() ==> v@[i]@ == debugging_catalog()[i],
{
    let mut v: Vec<ConfigSchema> = Vec::new();
    v.push(ConfigSchema::new("debug", "", ConfigType::String, ConfigCategory::Debugging, "Debug categories"));
    v.push(ConfigSchema::new("debugexclude", "", ConfigType::String, ConfigCategory::Debugging, "Exclude debug categories"));
    v.push(ConfigSchema::new("logips", "0", ConfigType::Bool, ConfigCategory::Debugging, "Log IP addresses"));
    v.push(ConfigSchema::new("logsourcelocations", "0", ConfigType::Bool, ConfigCategory::Debugging, "Log source locations"));
    v.push(ConfigSchema::new("logthreadnames", "0", ConfigType::Bool, ConfigCategory::Debugging, "Log thread names"));
    v.push(ConfigSchema::new("logtimestamps", "1", ConfigType::Bool, ConfigCategory::Debugging, "Log timestamps"));
    v.push(ConfigSchema::new("shrinkdebugfile", "1", ConfigType::Bool, ConfigCategory::Debugging, "Shrink debug.log on startup"));
    v.push(ConfigSchema::new("printtoconsole", "0", ConfigType::Bool, ConfigCategory::Debugging, "Print to console"));
    v.push(ConfigSchema::new("uacomment", "", ConfigType::String, ConfigCategory::Debugging, "User agent comment"));
    v.push(ConfigSchema::new("maxtxfee", "0.10", ConfigType::Float, ConfigCategory::Debugging, "Maximum transaction fee"));
    v
}

#[verifier::rlimit(60)]
fn mining_schemas() -> (v: Vec<ConfigSchema>)
    ensures
        v@.len() == mining_catalog().len(),
        forall|i: int| 0 <= i < v@.len() ==> v@[i]@ == mining_catalog()[i],
{
    let mut v: Vec<ConfigSchema> = Vec::new();
    v.push(ConfigSchema::new("blockmaxweight", "3996000", ConfigType::Int, ConfigCategory::Mining, "Maximum block weight"));
    v.push(ConfigSchema::new("blockmintxfee", "0.00001", ConfigType::Float, ConfigCategory::Mining, "Minimum block transaction fee"));
    v
}

#[verifier::rlimit(60)]
fn relay_schemas() -> (v: Vec<ConfigSchema>)
    ensures
        v@.len() == relay_catalog().len(),
        forall|i: int| 0 <= i < v@.len() ==> v@[i]@ == relay_catalog()[i],
{
    let mut v: Vec<ConfigSchema> = Vec::new();
    v.push(ConfigSchema::new("minrelaytxfee", "0.00001", ConfigType::Float, ConfigCategory::Relay, "Minimum relay fee"));
    v.push(ConfigSchema::new("datacarrier", "1", ConfigType::Bool, ConfigCategory::Relay, "Relay OP_RETURN transactions"));
    v.push(ConfigSchema::new("datacarriersize", "83", ConfigType::Int, ConfigCategory::Relay, "Maximum OP_RETURN size"));
    v.push(ConfigSchema::new("bytespersigop", "20", ConfigType::Int, ConfigCategory::Relay, "Bytes per sigop"));
    v.push(ConfigSchema::new("whitelistforcerelay", "0", ConfigType::Bool, ConfigCategory::Relay, "Force relay from whitelist"));
    v.push(ConfigSchema::new("whitelistrelay", "1", ConfigType::Bool, ConfigCategory::Relay, "Relay from whitelist"));
    v
}

#[verifier::rlimit(60)]
fn zmq_schemas() -> (v: Vec<ConfigSchema>)
    ensures
        v@.len() == zmq_catalog().len(),
        forall|i: int| 0 <= i < v@.len() ==> v@[i]@ == zmq_catalog()[i],
{
    let mut v: Vec<ConfigSchema> = Vec::new();
    v.push(ConfigSchema::new("zmqpubhashblock", "", ConfigType::Address, ConfigCategory::ZMQ, "ZMQ hash block publisher"));
    v.push(ConfigSchema::new("zmqpubhashtx", "", ConfigType::Address, ConfigCategory::ZMQ, "ZMQ hash tx publisher"));
    v.push(ConfigSchema::new("zmqpubrawblock", "", ConfigType::Address, ConfigCategory::ZMQ, "ZMQ raw block publisher"));
    v.push(ConfigSchema::new("zmqpubrawtx", "", ConfigType::Address, ConfigCategory::ZMQ, "ZMQ raw tx publisher"));
    v.push(ConfigSchema::new("zmqpubsequence", "", ConfigType::Address, ConfigCategory::ZMQ, "ZMQ sequence publisher"));
    v
}

/// Returns the default schema for all known configuration options, in the
/// catalog's fixed order.
pub fn get_default_schema() -> (v: Vec<ConfigSchema>)
    ensures
        v@.len() == catalog().len(),
        forall|i: int| 0 <= i < v@.len() ==> v@[i]@ == catalog()[i],
{
    let mut v = core_schemas();
    let mut p = network_schemas();
    v.append(&mut p);
    let mut p = rpc_schemas();
    v.append(&mut p);
    let mut p = wallet_schemas();
    v.append(&mut p);
    let mut p = debugging_schemas();
    v.append(&mut p);
    let mut p = mining_schemas();
    v.append(&mut p);
    let mut p = relay_schemas();
    v.append(&mut p);
    let mut p = zmq_schemas();
    v.append(&mut p);
    v
}

} // verus!
