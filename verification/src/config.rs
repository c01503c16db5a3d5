//! Reconciling a file's sections against the catalog, and the document type
//! that supports safe mutation and round-trip serialization.
//!
//! A parsed document holds exactly one entry per catalog key — carrying the
//! value the fixed probe order found, or the catalog default, disabled —
//! plus one enabled, schema-less entry per unrecognized key of the file.
use vstd::prelude::*;

use crate::ini::{
    doc_view, parse_ini, parse_ini_text, probe, probe_names, sec_pairs, IniSec, SecModel,
};
use crate::ini::{lemma_sec_pairs_append, lemma_sec_pairs_single, probe_exec};
use crate::schema::{
    catalog, catalog_has_key, get_default_schema, ConfigCategory, ConfigSchema, SchemaModel,
};
use crate::text::{append_str, chars_eq, chars_to_string, copy_chars, str_eq_chars, str_to_chars};

verus! {

/// Core Config
#[derive(Debug, Clone)]
pub struct Core {
    // Data directory and storage
    pub datadir: Option<String>,
    pub blocksdir: Option<String>,
    pub pid: Option<String>,
    pub debuglogfile: Option<String>,
    pub settings: Option<String>,
    pub includeconf: Option<String>,
    pub loadblock: Option<String>,

    // Indexing
    pub txindex: Option<bool>,
    pub blockfilterindex: Option<String>,
    pub coinstatsindex: Option<bool>,

    // Pruning
    pub prune: Option<u32>,

    // Memory and performance
    pub dbcache: Option<u32>,
    pub maxmempool: Option<u32>,
    pub maxorphantx: Option<u32>,
    pub mempoolexpiry: Option<u32>,
    pub par: Option<i32>,
    pub blockreconstructionextratxn: Option<u32>,

    // Behavior
    pub blocksonly: Option<bool>,
    pub persistmempool: Option<bool>,
    pub reindex: Option<bool>,
    pub reindex_chainstate: Option<bool>,
    pub sysperms: Option<bool>,

    // Daemon mode
    pub daemon: Option<bool>,
    pub daemonwait: Option<bool>,

    // Notification commands
    pub alertnotify: Option<String>,
    pub blocknotify: Option<String>,
    pub startupnotify: Option<String>,

    // Validation
    pub assumevalid: Option<String>,
}

/// Network Config
#[derive(Debug, Clone)]
pub struct Network {
    // Chain selection
    pub chain: Option<String>,
    pub testnet: Option<bool>,
    pub regtest: Option<bool>,
    pub signet: Option<bool>,
    pub signetchallenge: Option<String>,
    pub signetseednode: Option<String>,

    // Listening and binding
    pub listen: Option<bool>,
    pub bind: Option<String>,
    pub whitebind: Option<String>,
    pub port: Option<u32>,

    // Connection limits
    pub maxconnections: Option<u32>,
    pub maxreceivebuffer: Option<u32>,
    pub maxsendbuffer: Option<u32>,
    pub maxuploadtarget: Option<u32>,
    pub timeout: Option<u32>,
    pub maxtimeadjustment: Option<u32>,
    pub bantime: Option<u32>,

    // Peer discovery
    pub discover: Option<bool>,
    pub dns: Option<bool>,
    pub dnsseed: Option<bool>,
    pub fixedseeds: Option<bool>,
    pub forcednsseed: Option<bool>,
    pub seednode: Option<String>,
    pub addnode: Option<String>,
    pub connect: Option<String>,

    // Network selection
    pub onlynet: Option<String>,
    pub networkactive: Option<bool>,

    // Proxy settings
    pub proxy: Option<String>,
    pub proxyrandomize: Option<bool>,

    // Tor settings
    pub onion: Option<String>,
    pub listenonion: Option<bool>,
    pub torcontrol: Option<String>,
    pub torpassword: Option<String>,

    // I2P settings
    pub i2psam: Option<String>,
    pub i2pacceptincoming: Option<bool>,

    // CJDNS
    pub cjdnsreachable: Option<bool>,

    // Peer permissions
    pub whitelist: Option<String>,
    pub peerblockfilters: Option<bool>,
    pub peerbloomfilters: Option<bool>,
    pub permitbaremultisig: Option<bool>,

    // External IP
    pub externalip: Option<String>,

    // UPnP
    pub upnp: Option<bool>,

    // ASN mapping
    pub asmap: Option<String>,
}

/// RPC Config
#[derive(Debug, Clone)]
pub struct RPC {
    // Server enable
    pub server: Option<bool>,

    // Authentication
    pub rpcuser: Option<String>,
    pub rpcpassword: Option<String>,
    pub rpcauth: Option<String>,
    pub rpccookiefile: Option<String>,

    // Connection
    pub rpcport: Option<u32>,
    pub rpcbind: Option<String>,
    pub rpcallowip: Option<String>,

    // Performance
    pub rpcthreads: Option<u32>,

    // Serialization
    pub rpcserialversion: Option<u32>,

    // Whitelist
    pub rpcwhitelist: Option<String>,
    pub rpcwhitelistdefault: Option<bool>,

    // REST interface
    pub rest: Option<bool>,
}

/// Wallet related config
#[derive(Debug, Clone)]
pub struct Wallet {
    // Enable/disable
    pub disablewallet: Option<bool>,

    // Wallet paths
    pub wallet: Option<String>,
    pub walletdir: Option<String>,

    // Address types
    pub addresstype: Option<String>,
    pub changetype: Option<String>,

    // Fee settings
    pub fallbackfee: Option<String>,
    pub discardfee: Option<String>,
    pub mintxfee: Option<String>,
    pub paytxfee: Option<String>,
    pub consolidatefeerate: Option<String>,
    pub maxapsfee: Option<String>,

    // Transaction behavior
    pub txconfirmtarget: Option<u32>,
    pub spendzeroconfchange: Option<bool>,
    pub walletrbf: Option<bool>,
    pub avoidpartialspends: Option<bool>,

    // Key management
    pub keypool: Option<u32>,

    // External signer
    pub signer: Option<String>,

    // Broadcast
    pub walletbroadcast: Option<bool>,

    // Notifications
    pub walletnotify: Option<String>,
}

/// Debugging related config
#[derive(Debug, Clone)]
pub struct Debugging {
    // Debug categories
    pub debug: Option<String>,
    pub debugexclude: Option<String>,

    // Logging options
    pub logips: Option<bool>,
    pub logsourcelocations: Option<bool>,
    pub logthreadnames: Option<bool>,
    pub logtimestamps: Option<bool>,
    pub shrinkdebugfile: Option<bool>,
    pub printtoconsole: Option<bool>,

    // User agent
    pub uacomment: Option<String>,

    // Fee limits
    pub maxtxfee: Option<String>,
}

/// Mining related config
#[derive(Debug, Clone)]
pub struct Mining {
    // Block creation
    pub blockmaxweight: Option<u32>,
    pub blockmintxfee: Option<String>,
}

/// Relay related config
#[derive(Debug, Clone)]
pub struct Relay {
    // Relay fees
    pub minrelaytxfee: Option<String>,

    // Data carrier (OP_RETURN)
    pub datacarrier: Option<bool>,
    pub datacarriersize: Option<u32>,

    // Sigops
    pub bytespersigop: Option<u32>,

    // Whitelist relay
    pub whitelistforcerelay: Option<bool>,
    pub whitelistrelay: Option<bool>,
}

/// ZMQ related config
#[derive(Debug, Clone)]
pub struct ZMQ {
    // Hash notifications
    pub zmqpubhashblock: Option<String>,
    pub zmqpubhashtx: Option<String>,

    // Raw data notifications
    pub zmqpubrawblock: Option<String>,
    pub zmqpubrawtx: Option<String>,

    // Sequence notifications
    pub zmqpubsequence: Option<String>,
}

#[derive(Debug, Clone)]
pub struct BitcoinConfig {
    pub core: Core,
    pub network: Network,
    pub rpc: RPC,
    pub wallet: Wallet,
    pub debugging: Debugging,
    pub mining: Mining,
    pub relay: Relay,
    pub zmq: ZMQ,
}

/// Mathematical model of one configuration entry.
#[verifier::ext_equal]
pub ghost struct EntryModel {
    pub key: Seq<char>,
    pub value: Seq<char>,
    pub schema: Option<SchemaModel>,
    pub enabled: bool,
}

/// A parsed configuration entry: one key's current textual value, whether it
/// is written on save, and the catalog record it answers to, if any.
#[derive(Debug, Clone)]
pub struct ConfigEntry {
    pub key: String,
    pub value: String,
    pub schema: Option<ConfigSchema>,
    pub enabled: bool,
}

impl View for ConfigEntry {
    type V = EntryModel;

    open spec fn view(&self) -> EntryModel {
        EntryModel {
            key: self.key@,
            value: self.value@,
            schema: match self.schema {
                Some(s) => Some(s@),
                None => None,
            },
            enabled: self.enabled,
        }
    }
}

impl ConfigEntry {
    /// An equal copy of the entry.  The derived `Clone` carries no
    /// contract, so verified code copies entries through this method.
    pub fn duplicate(&self) -> (r: Self)
        ensures
            r@ == self@,
    {
        ConfigEntry {
            key: self.key.clone(),
            value: self.value.clone(),
            schema: match &self.schema {
                Some(s) => Some(s.duplicate()),
                None => None,
            },
            enabled: self.enabled,
        }
    }
}

/// The models of a vector of entries.
pub open spec fn entry_views(s: Seq<ConfigEntry>) -> Seq<EntryModel> {
    s.map_values(|e: ConfigEntry| e@)
}

/// The entry a catalog record yields when the file does not mention its key.
pub open spec fn default_entry(s: SchemaModel) -> EntryModel {
    EntryModel { key: s.key, value: s.default, schema: Some(s), enabled: false }
}

/// One disabled default entry per catalog record: what parsing yields when
/// there is no file, or the file is malformed.
pub open spec fn default_entries() -> Seq<EntryModel> {
    Seq::new(catalog().len(), |i: int| default_entry(catalog()[i]))
}

/// The entry a catalog record yields against a parsed file: the probed
/// value, enabled, if some probed section holds the key, else the default.
pub open spec fn catalog_entry(doc: Seq<SecModel>, s: SchemaModel) -> EntryModel {
    match probe(doc, s.key) {
        Some(v) => EntryModel { key: s.key, value: v, schema: Some(s), enabled: true },
        None => default_entry(s),
    }
}

/// The schema-less entry an unrecognized file key yields.
pub open spec fn custom_entry(doc: Seq<SecModel>, k: Seq<char>) -> EntryModel {
    EntryModel {
        key: k,
        value: match probe(doc, k) {
            Some(v) => v,
            None => Seq::empty(),
        },
        schema: None,
        enabled: true,
    }
}

/// Adds `k` to the collected unrecognized keys unless the catalog covers it
/// or it was already collected.
pub open spec fn add_candidate(acc: Seq<Seq<char>>, k: Seq<char>) -> Seq<Seq<char>> {
    if catalog_has_key(k) || acc.contains(k) {
        acc
    } else {
        acc.push(k)
    }
}

/// Folds `add_candidate` over the keys of `pairs`, in order.
pub open spec fn collect_pairs(acc: Seq<Seq<char>>, pairs: Seq<(Seq<char>, Seq<char>)>) -> Seq<
    Seq<char>,
>
    decreases pairs.len(),
{
    if pairs.len() == 0 {
        acc
    } else {
        collect_pairs(add_candidate(acc, pairs[0].0), pairs.drop_first())
    }
}

/// Folds the keys of the probed sections, in probe order, from name `i` on.
pub open spec fn collect_names(acc: Seq<Seq<char>>, doc: Seq<SecModel>, i: int) -> Seq<Seq<char>>
    decreases probe_names().len() - i,
{
    if i < 0 || i >= probe_names().len() {
        acc
    } else {
        collect_names(collect_pairs(acc, sec_pairs(doc, probe_names()[i])), doc, i + 1)
    }
}

/// Every key found in a probed section that the catalog does not cover,
/// first occurrence first, without repetition.
pub open spec fn custom_keys(doc: Seq<SecModel>) -> Seq<Seq<char>> {
    collect_names(Seq::empty(), doc, 0)
}

/// The full outcome of reconciling a parsed file against the catalog.
pub open spec fn parsed_entries(doc: Seq<SecModel>) -> Seq<EntryModel> {
    Seq::new(catalog().len(), |i: int| catalog_entry(doc, catalog()[i])) + custom_keys(
        doc,
    ).map_values(|k: Seq<char>| custom_entry(doc, k))
}

/// The view of an optional borrowed text.
pub open spec fn opt_str_view(contents: Option<&str>) -> Option<Seq<char>> {
    match contents {
        Some(s) => Some(s@),
        None => None,
    }
}

/// What parsing a configuration file yields: `None` contents stand for a
/// missing or unreadable file; a malformed file degrades to all defaults.
pub open spec fn spec_parse(contents: Option<Seq<char>>) -> Seq<EntryModel> {
    match contents {
        None => default_entries(),
        Some(text) => match parse_ini(text) {
            None => default_entries(),
            Some(doc) => parsed_entries(doc),
        },
    }
}

/// One disabled entry per catalog record, carrying its default value.
fn default_entries_exec(schemas: &Vec<ConfigSchema>) -> (entries: Vec<ConfigEntry>)
    requires
        schemas@.len() == catalog().len(),
        forall|i: int| 0 <= i < schemas@.len() ==> schemas@[i]@ == catalog()[i],
    ensures
        entry_views(entries@) == default_entries(),
{
    let mut entries: Vec<ConfigEntry> = Vec::new();
    let mut i: usize = 0;
    while i < schemas.len()
        invariant
            i <= schemas@.len(),
            schemas@.len() == catalog().len(),
            forall|j: int| 0 <= j < schemas@.len() ==> schemas@[j]@ == catalog()[j],
            entries@.len() == i as int,
            entry_views(entries@) =~= default_entries().take(i as int),
        decreases schemas@.len() - i,
    {
        let s = &schemas[i];
        entries.push(
            ConfigEntry {
                key: s.key.clone(),
                value: s.default.clone(),
                schema: Some(s.duplicate()),
                enabled: false,
            },
        );
        i += 1;
        assert(entry_views(entries@) =~= default_entries().take(i as int));
    }
    assert(entry_views(entries@) =~= default_entries());
    entries
}

/// Whether the catalog covers the key `k`.
fn schemas_have_key(schemas: &Vec<ConfigSchema>, k: &Vec<char>) -> (r: bool)
    requires
        schemas@.len() == catalog().len(),
        forall|i: int| 0 <= i < schemas@.len() ==> schemas@[i]@ == catalog()[i],
    ensures
        r == catalog_has_key(k@),
{
    let mut i: usize = 0;
    while i < schemas.len()
        invariant
            i <= schemas@.len(),
            schemas@.len() == catalog().len(),
            forall|j: int| 0 <= j < schemas@.len() ==> schemas@[j]@ == catalog()[j],
            forall|j: int| 0 <= j < i ==> catalog()[j].key != k@,
        decreases schemas@.len() - i,
    {
        if str_eq_chars(schemas[i].key.as_str(), k) {
            assert(catalog()[i as int].key == k@);
            return true;
        }
        i += 1;
    }
    false
}

/// Whether some already-collected key equals `k`.
fn collected_contains(acc: &Vec<Vec<char>>, k: &Vec<char>) -> (r: bool)
    ensures
        r == acc@.map_values(|x: Vec<char>| x@).contains(k@),
{
    let ghost av = acc@.map_values(|x: Vec<char>| x@);
    let mut i: usize = 0;
    while i < acc.len()
        invariant
            i <= acc@.len(),
            av == acc@.map_values(|x: Vec<char>| x@),
            forall|j: int| 0 <= j < i ==> av[j] != k@,
        decreases acc@.len() - i,
    {
        if chars_eq(&acc[i], k) {
            assert(av[i as int] == k@);
            return true;
        }
        i += 1;
    }
    assert(forall|j: int| 0 <= j < av.len() ==> av[j] != k@);
    false
}

/// All pairs under sections named `name`, in file order.
fn sec_pairs_exec(doc: &Vec<IniSec>, name: &Vec<char>) -> (r: Vec<(Vec<char>, Vec<char>)>)
    ensures
        r@.map_values(|p: (Vec<char>, Vec<char>)| (p.0@, p.1@)) == sec_pairs(
            doc_view(doc@),
            name@,
        ),
{
    let ghost dv = doc_view(doc@);
    let mut r: Vec<(Vec<char>, Vec<char>)> = Vec::new();
    proof {
        assert(dv.take(0) =~= Seq::<SecModel>::empty());
        assert(r@.map_values(|p: (Vec<char>, Vec<char>)| (p.0@, p.1@)) =~= sec_pairs(
            dv.take(0),
            name@,
        ));
        assert(r@.len() == sec_pairs(dv.take(0), name@).len());
    }
    let mut si: usize = 0;
    while si < doc.len()
        invariant
            si <= doc@.len(),
            dv == doc_view(doc@),
            r@.len() == sec_pairs(dv.take(si as int), name@).len(),
            r@.map_values(|p: (Vec<char>, Vec<char>)| (p.0@, p.1@)) == sec_pairs(
                dv.take(si as int),
                name@,
            ),
        decreases doc@.len() - si,
    {
        proof {
            assert(dv.take(si as int + 1) =~= dv.take(si as int) + seq![dv[si as int]]);
            lemma_sec_pairs_append(dv.take(si as int), seq![dv[si as int]], name@);
            lemma_sec_pairs_single(dv[si as int], name@);
        }
        if chars_eq(&doc[si].name, name) {
            let sec = &doc[si];
            let mut pi: usize = 0;
            while pi < sec.pairs.len()
                invariant
                    pi <= sec.pairs@.len(),
                    sec@ == dv[si as int],
                    si < dv.len(),
                    dv == doc_view(doc@),
                    r@.len() == sec_pairs(dv.take(si as int), name@).len() + pi as int,
                    r@.map_values(|p: (Vec<char>, Vec<char>)| (p.0@, p.1@)) == sec_pairs(
                        dv.take(si as int),
                        name@,
                    ) + dv[si as int].pairs.take(pi as int),
                decreases sec.pairs@.len() - pi,
            {
                proof {
                    assert(dv[si as int].pairs == sec.pairs@.map_values(
                        |p: (Vec<char>, Vec<char>)| (p.0@, p.1@),
                    ));
                    assert(dv[si as int].pairs.len() == sec.pairs@.len());
                    assert(dv[si as int].pairs[pi as int] == (
                        sec.pairs@[pi as int].0@,
                        sec.pairs@[pi as int].1@,
                    ));
                }
                let pair = (copy_chars(&sec.pairs[pi].0), copy_chars(&sec.pairs[pi].1));
                let ghost prev = r@.map_values(|p: (Vec<char>, Vec<char>)| (p.0@, p.1@));
                let ghost pv = (pair.0@, pair.1@);
                r.push(pair);
                pi += 1;
                proof {
                    assert(r@.map_values(|p: (Vec<char>, Vec<char>)| (p.0@, p.1@)) =~= prev.push(
                        pv,
                    ));
                    assert(dv[si as int].pairs.take(pi as int) =~= dv[si as int].pairs.take(
                        pi as int - 1,
                    ).push(dv[si as int].pairs[pi as int - 1]));
                    assert(sec_pairs(dv.take(si as int), name@) + dv[si as int].pairs.take(
                        pi as int,
                    ) =~= prev.push(pv));
                }
            }
            proof {
                assert(dv[si as int].pairs.take(dv[si as int].pairs.len() as int) =~= dv[si
                    as int].pairs);
                assert(r@.map_values(|p: (Vec<char>, Vec<char>)| (p.0@, p.1@)) =~= sec_pairs(
                    dv.take(si as int + 1),
                    name@,
                ));
            }
        } else {
            proof {
                assert(sec_pairs(dv.take(si as int + 1), name@) =~= sec_pairs(
                    dv.take(si as int),
                    name@,
                ));
            }
        }
        si += 1;
    }
    proof {
        assert(dv.take(doc@.len() as int) =~= dv);
    }
    r
}

/// Folds the keys of one section's pairs into the collected keys.
fn collect_from_pairs(
    acc: Vec<Vec<char>>,
    pairs: &Vec<(Vec<char>, Vec<char>)>,
    schemas: &Vec<ConfigSchema>,
) -> (r: Vec<Vec<char>>)
    requires
        schemas@.len() == catalog().len(),
        forall|i: int| 0 <= i < schemas@.len() ==> schemas@[i]@ == catalog()[i],
    ensures
        r@.map_values(|x: Vec<char>| x@) == collect_pairs(
            acc@.map_values(|x: Vec<char>| x@),
            pairs@.map_values(|p: (Vec<char>, Vec<char>)| (p.0@, p.1@)),
        ),
{
    let ghost pv = pairs@.map_values(|p: (Vec<char>, Vec<char>)| (p.0@, p.1@));
    let ghost acc0 = acc@.map_values(|x: Vec<char>| x@);
    let mut acc = acc;
    let mut pi: usize = 0;
    proof {
        assert(pv.skip(0) =~= pv);
    }
    while pi < pairs.len()
        invariant
            pi <= pairs@.len(),
            pv == pairs@.map_values(|p: (Vec<char>, Vec<char>)| (p.0@, p.1@)),
            schemas@.len() == catalog().len(),
            forall|i: int| 0 <= i < schemas@.len() ==> schemas@[i]@ == catalog()[i],
            collect_pairs(acc0, pv) == collect_pairs(
                acc@.map_values(|x: Vec<char>| x@),
                pv.skip(pi as int),
            ),
        decreases pairs@.len() - pi,
    {
        let ghost rem = pv.skip(pi as int);
        proof {
            assert(rem.len() > 0);
            assert(rem[0] == pv[pi as int]);
            assert(rem.drop_first() =~= pv.skip(pi as int + 1));
        }
        let k = &pairs[pi].0;
        if !schemas_have_key(schemas, k) && !collected_contains(&acc, k) {
            let ghost before = acc@.map_values(|x: Vec<char>| x@);
            acc.push(copy_chars(k));
            proof {
                assert(acc@.map_values(|x: Vec<char>| x@) =~= before.push(k@));
                assert(add_candidate(before, rem[0].0) == before.push(k@));
            }
        } else {
            proof {
                assert(add_candidate(acc@.map_values(|x: Vec<char>| x@), rem[0].0)
                    == acc@.map_values(|x: Vec<char>| x@));
            }
        }
        pi += 1;
    }
    proof {
        assert(pv.skip(pv.len() as int) =~= Seq::<(Seq<char>, Seq<char>)>::empty());
    }
    acc
}

/// Collects the unrecognized keys of all probed sections, in probe order.
fn collect_customs(doc: &Vec<IniSec>, schemas: &Vec<ConfigSchema>) -> (r: Vec<Vec<char>>)
    requires
        schemas@.len() == catalog().len(),
        forall|i: int| 0 <= i < schemas@.len() ==> schemas@[i]@ == catalog()[i],
    ensures
        r@.map_values(|x: Vec<char>| x@) == custom_keys(doc_view(doc@)),
{
    let ghost dv = doc_view(doc@);
    let ghost a0 = Seq::<Seq<char>>::empty();
    let ghost a1 = collect_pairs(a0, sec_pairs(dv, probe_names()[0]));
    let ghost a2 = collect_pairs(a1, sec_pairs(dv, probe_names()[1]));
    let ghost a3 = collect_pairs(a2, sec_pairs(dv, probe_names()[2]));
    let ghost a4 = collect_pairs(a3, sec_pairs(dv, probe_names()[3]));
    let ghost a5 = collect_pairs(a4, sec_pairs(dv, probe_names()[4]));
    let acc: Vec<Vec<char>> = Vec::new();
    proof {
        assert(acc@.map_values(|x: Vec<char>| x@) =~= a0);
        assert(probe_names()[0] == Seq::<char>::empty());
    }
    let empty_name: Vec<char> = Vec::new();
    let ps = sec_pairs_exec(doc, &empty_name);
    let acc = collect_from_pairs(acc, &ps, schemas);
    assert(acc@.map_values(|x: Vec<char>| x@) == a1);
    let name = str_to_chars("main");
    assert(name@ == probe_names()[1]);
    let ps = sec_pairs_exec(doc, &name);
    let acc = collect_from_pairs(acc, &ps, schemas);
    assert(acc@.map_values(|x: Vec<char>| x@) == a2);
    let name = str_to_chars("test");
    assert(name@ == probe_names()[2]);
    let ps = sec_pairs_exec(doc, &name);
    let acc = collect_from_pairs(acc, &ps, schemas);
    assert(acc@.map_values(|x: Vec<char>| x@) == a3);
    let name = str_to_chars("signet");
    assert(name@ == probe_names()[3]);
    let ps = sec_pairs_exec(doc, &name);
    let acc = collect_from_pairs(acc, &ps, schemas);
    assert(acc@.map_values(|x: Vec<char>| x@) == a4);
    let name = str_to_chars("regtest");
    assert(name@ == probe_names()[4]);
    let ps = sec_pairs_exec(doc, &name);
    let acc = collect_from_pairs(acc, &ps, schemas);
    assert(acc@.map_values(|x: Vec<char>| x@) == a5);
    proof {
        assert(collect_names(a5, dv, 5) == a5);
        assert(collect_names(a4, dv, 4) == collect_names(a5, dv, 5));
        assert(collect_names(a3, dv, 3) == collect_names(a4, dv, 4));
        assert(collect_names(a2, dv, 2) == collect_names(a3, dv, 3));
        assert(collect_names(a1, dv, 1) == collect_names(a2, dv, 2));
        assert(collect_names(a0, dv, 0) == collect_names(a1, dv, 1));
        assert(custom_keys(dv) == collect_names(a0, dv, 0));
    }
    acc
}

/// Parses the text of a configuration file — `None` for a file that does
/// not exist or cannot be read — into one entry per catalog key plus one
/// schema-less entry per unrecognized key found in a probed section.
pub fn parse_config(contents: Option<&str>) -> (entries: Vec<ConfigEntry>)
    ensures
        entry_views(entries@) == spec_parse(opt_str_view(contents)),
{
    let schemas = get_default_schema();
    let text = match contents {
        Some(s) => s,
        None => {
            return default_entries_exec(&schemas);
        },
    };
    let chars = str_to_chars(text);
    let doc = match parse_ini_text(&chars) {
        Some(doc) => doc,
        None => {
            return default_entries_exec(&schemas);
        },
    };
    let ghost dv = doc_view(doc@);
    let mut entries: Vec<ConfigEntry> = Vec::new();
    let mut i: usize = 0;
    proof {
        assert(entry_views(entries@) =~= Seq::new(0, |j: int| catalog_entry(dv, catalog()[j])));
    }
    while i < schemas.len()
        invariant
            i <= schemas@.len(),
            schemas@.len() == catalog().len(),
            forall|j: int| 0 <= j < schemas@.len() ==> schemas@[j]@ == catalog()[j],
            dv == doc_view(doc@),
            entries@.len() == i as int,
            entry_views(entries@) == Seq::new(i as nat, |j: int| catalog_entry(dv, catalog()[j])),
        decreases schemas@.len() - i,
    {
        let s = &schemas[i];
        let keyc = str_to_chars(s.key.as_str());
        proof {
            assert(schemas@[i as int]@ == catalog()[i as int]);
            assert(keyc@ == catalog()[i as int].key);
        }
        let ghost prev = entry_views(entries@);
        match probe_exec(&doc, &keyc) {
            Some(v) => {
                entries.push(
                    ConfigEntry {
                        key: s.key.clone(),
                        value: chars_to_string(&v),
                        schema: Some(s.duplicate()),
                        enabled: true,
                    },
                );
            },
            None => {
                entries.push(
                    ConfigEntry {
                        key: s.key.clone(),
                        value: s.default.clone(),
                        schema: Some(s.duplicate()),
                        enabled: false,
                    },
                );
            },
        }
        proof {
            assert(entries@[i as int]@ == catalog_entry(dv, catalog()[i as int]));
        }
        i += 1;
        proof {
            assert(entry_views(entries@) =~= prev.push(catalog_entry(dv, catalog()[i - 1])));
            assert(Seq::new(i as nat, |j: int| catalog_entry(dv, catalog()[j])) =~= prev.push(
                catalog_entry(dv, catalog()[i - 1]),
            ));
        }
    }
    let customs = collect_customs(&doc, &schemas);
    let ghost ck = custom_keys(dv);
    let mut ci: usize = 0;
    proof {
        assert(entry_views(entries@) =~= Seq::new(
            catalog().len(),
            |j: int| catalog_entry(dv, catalog()[j]),
        ) + ck.take(0).map_values(|k: Seq<char>| custom_entry(dv, k)));
    }
    while ci < customs.len()
        invariant
            ci <= customs@.len(),
            customs@.map_values(|x: Vec<char>| x@) == ck,
            ck == custom_keys(dv),
            dv == doc_view(doc@),
            entries@.len() == catalog().len() + ci as int,
            entry_views(entries@) == Seq::new(
                catalog().len(),
                |j: int| catalog_entry(dv, catalog()[j]),
            ) + ck.take(ci as int).map_values(|k: Seq<char>| custom_entry(dv, k)),
        decreases customs@.len() - ci,
    {
        let k = &customs[ci];
        proof {
            assert(customs@[ci as int]@ == ck[ci as int]);
        }
        let value = match probe_exec(&doc, k) {
            Some(v) => chars_to_string(&v),
            None => String::new(),
        };
        let ghost prev = entry_views(entries@);
        entries.push(ConfigEntry { key: chars_to_string(k), value, schema: None, enabled: true });
        proof {
            assert(entries@[catalog().len() + ci as int]@ == custom_entry(dv, ck[ci as int]));
        }
        ci += 1;
        proof {
            assert(entry_views(entries@) =~= prev.push(custom_entry(dv, ck[ci - 1])));
            assert(ck.take(ci as int).map_values(|k: Seq<char>| custom_entry(dv, k)) =~= ck.take(
                ci as int - 1,
            ).map_values(|k: Seq<char>| custom_entry(dv, k)).push(custom_entry(dv, ck[ci - 1])));
            assert(Seq::new(
                catalog().len(),
                |j: int| catalog_entry(dv, catalog()[j]),
            ) + ck.take(ci as int).map_values(|k: Seq<char>| custom_entry(dv, k)) =~= prev.push(
                custom_entry(dv, ck[ci - 1]),
            ));
        }
    }
    proof {
        assert(ck.take(ck.len() as int) =~= ck);
        assert(entry_views(entries@) =~= parsed_entries(dv));
    }
    entries
}


/// Display rank used to order the groups on save: the eight categories in
/// their fixed order, then the schema-less entries.
pub open spec fn rank_of(e: EntryModel) -> int {
    match e.schema {
        Some(s) => match s.category {
            ConfigCategory::Core => 0,
            ConfigCategory::Network => 1,
            ConfigCategory::RPC => 2,
            ConfigCategory::Wallet => 3,
            ConfigCategory::Debugging => 4,
            ConfigCategory::Mining => 5,
            ConfigCategory::Relay => 6,
            ConfigCategory::ZMQ => 7,
        },
        None => 8,
    }
}

/// The enabled entries of one display rank, in document order.
pub open spec fn group_of(entries: Seq<EntryModel>, r: int) -> Seq<EntryModel> {
    entries.filter(|e: EntryModel| e.enabled && rank_of(e) == r)
}

/// The comment heading written above the group of rank `r`.
pub open spec fn rank_label(r: int) -> Seq<char> {
    if r == 0 {
        "# Core\n"@
    } else if r == 1 {
        "# Network\n"@
    } else if r == 2 {
        "# RPC\n"@
    } else if r == 3 {
        "# Wallet\n"@
    } else if r == 4 {
        "# Debugging\n"@
    } else if r == 5 {
        "# Mining\n"@
    } else if r == 6 {
        "# Relay\n"@
    } else {
        "# Custom\n"@
    }
}

/// One `key=value` line per entry of a group.
pub open spec fn group_lines(g: Seq<EntryModel>) -> Seq<char>
    decreases g.len(),
{
    if g.len() == 0 {
        Seq::empty()
    } else {
        g[0].key + seq!['='] + g[0].value + seq!['\n'] + group_lines(g.drop_first())
    }
}

pub proof fn lemma_group_lines_append(a: Seq<EntryModel>, b: Seq<EntryModel>)
    ensures
        group_lines(a + b) == group_lines(a) + group_lines(b),
    decreases a.len(),
{
    if a.len() == 0 {
        assert(a + b =~= b);
        assert(group_lines(a) + group_lines(b) =~= group_lines(b));
    } else {
        assert((a + b)[0] == a[0]);
        assert((a + b).drop_first() =~= a.drop_first() + b);
        lemma_group_lines_append(a.drop_first(), b);
        assert(group_lines(a + b) =~= group_lines(a) + group_lines(b));
    }
}

/// The text of the groups of rank `r` on: each non-empty group preceded by
/// a blank separator line when an earlier group was already written, then
/// its heading, then its `key=value` lines.
pub open spec fn groups_text(entries: Seq<EntryModel>, r: int, any_before: bool) -> Seq<char>
    decreases 9 - r,
{
    if r < 0 || r >= 9 {
        Seq::empty()
    } else {
        let g = group_of(entries, r);
        if g.len() == 0 {
            groups_text(entries, r + 1, any_before)
        } else {
            (if any_before {
                seq!['\n']
            } else {
                Seq::empty()
            }) + rank_label(r) + group_lines(g) + groups_text(entries, r + 1, true)
        }
    }
}

/// The saved form of a document: the enabled entries grouped by category
/// in the fixed order, one heading comment per non-empty group, groups
/// separated by blank lines.  No `[section]` headers are written: the
/// output is a single flat grouping, though input files may carry them.
pub open spec fn spec_serialize(entries: Seq<EntryModel>) -> Seq<char> {
    groups_text(entries, 0, false)
}

/// Mathematical model of an open configuration document.
#[verifier::ext_equal]
pub ghost struct DocModel {
    pub path: Seq<char>,
    pub entries: Seq<EntryModel>,
}

/// Index of the first entry with key `k`, or `-1` if there is none.
pub open spec fn key_index(s: Seq<EntryModel>, k: Seq<char>) -> int
    decreases s.len(),
{
    if s.len() == 0 {
        -1
    } else if s[0].key == k {
        0
    } else {
        let r = key_index(s.drop_first(), k);
        if r < 0 {
            -1
        } else {
            1 + r
        }
    }
}

/// Whether some entry uses the key `k`.
pub open spec fn has_key(s: Seq<EntryModel>, k: Seq<char>) -> bool {
    key_index(s, k) >= 0
}

pub proof fn lemma_key_index(s: Seq<EntryModel>, k: Seq<char>)
    ensures
        -1 <= key_index(s, k) < s.len(),
        key_index(s, k) >= 0 ==> s[key_index(s, k)].key == k,
        forall|j: int| 0 <= j < key_index(s, k) ==> s[j].key != k,
        key_index(s, k) == -1 ==> forall|j: int| 0 <= j < s.len() ==> s[j].key != k,
    decreases s.len(),
{
    if s.len() > 0 && s[0].key != k {
        lemma_key_index(s.drop_first(), k);
        assert(forall|j: int| 1 <= j < s.len() ==> s[j] == s.drop_first()[j - 1]);
    }
}

/// The entries that are written on save.
pub open spec fn enabled_of(s: Seq<EntryModel>) -> Seq<EntryModel> {
    s.filter(|e: EntryModel| e.enabled)
}

/// Whether the entry answers to a catalog record of this category.
pub open spec fn in_category(e: EntryModel, c: ConfigCategory) -> bool {
    match e.schema {
        Some(sc) => sc.category == c,
        None => false,
    }
}

/// An open configuration document: the file's path and its full entry set,
/// one entry per catalog key plus the file's schema-less extras.
#[derive(Debug, Clone)]
pub struct BitcoinConfigFile {
    pub path: String,
    pub entries: Vec<ConfigEntry>,
}

impl View for BitcoinConfigFile {
    type V = DocModel;

    open spec fn view(&self) -> DocModel {
        DocModel { path: self.path@, entries: entry_views(self.entries@) }
    }
}

impl BitcoinConfigFile {
    /// Opens a configuration file from the text read at `path` — `None` for
    /// a file that does not exist or cannot be read.
    pub fn open(path: &str, contents: Option<&str>) -> (r: Self)
        ensures
            r@.path == path@,
            r@.entries == spec_parse(opt_str_view(contents)),
    {
        BitcoinConfigFile { path: path.to_owned(), entries: parse_config(contents) }
    }

    /// A new document for `path` with every catalog entry at its default
    /// value, disabled.
    pub fn new(path: &str) -> (r: Self)
        ensures
            r@.path == path@,
            r@.entries == default_entries(),
    {
        let schemas = get_default_schema();
        BitcoinConfigFile { path: path.to_owned(), entries: default_entries_exec(&schemas) }
    }

    /// Index of the first entry with key `key`, if any.
    fn find_index(&self, key: &str) -> (r: Option<usize>)
        ensures
            match r {
                Some(i) => i == key_index(self@.entries, key@) && i < self.entries@.len(),
                None => !has_key(self@.entries, key@),
            },
    {
        let ghost ev = self@.entries;
        let kc = str_to_chars(key);
        let mut i: usize = 0;
        while i < self.entries.len()
            invariant
                i <= self.entries@.len(),
                ev == entry_views(self.entries@),
                kc@ == key@,
                forall|j: int| 0 <= j < i ==> ev[j].key != key@,
            decreases self.entries@.len() - i,
        {
            if str_eq_chars(self.entries[i].key.as_str(), &kc) {
                proof {
                    assert(ev[i as int].key == key@);
                    lemma_key_index(ev, key@);
                    assert(ev.len() == self.entries@.len());
                    assert(key_index(ev, key@) == i);
                }
                return Some(i);
            }
            i += 1;
        }
        proof {
            assert(ev.len() == self.entries@.len());
            lemma_key_index(ev, key@);
        }
        None
    }

    /// A reference to the first entry with key `key`, if any.
    pub fn get(&self, key: &str) -> (r: Option<&ConfigEntry>)
        ensures
            match r {
                Some(e) => has_key(self@.entries, key@) && e@ == self@.entries[key_index(
                    self@.entries,
                    key@,
                )],
                None => !has_key(self@.entries, key@),
            },
    {
        match self.find_index(key) {
            Some(i) => {
                proof {
                    lemma_key_index(self@.entries, key@);
                }
                Some(&self.entries[i])
            },
            None => None,
        }
    }

    /// A mutable reference to the first entry with key `key`, if any.
    pub fn get_mut(&mut self, key: &str) -> (r: Option<&mut ConfigEntry>)
        ensures
            match r {
                Some(e) => {
                    &&& has_key(old(self)@.entries, key@)
                    &&& e@ == old(self)@.entries[key_index(old(self)@.entries, key@)]
                    &&& final(self)@.path == old(self)@.path
                    &&& final(self)@.entries == old(self)@.entries.update(
                        key_index(old(self)@.entries, key@),
                        final(e)@,
                    )
                },
                None => !has_key(old(self)@.entries, key@) && *final(self) == *old(self),
            },
    {
        let ghost ev = self@.entries;
        match self.find_index(key) {
            Some(i) => {
                proof {
                    lemma_key_index(ev, key@);
                }
                let e = vstd::std_specs::vec::vec_index_mut(&mut self.entries, i);
                proof {
                    assert(entry_views(old(self).entries@.update(i as int, *final(e))) =~= ev.update(
                        i as int,
                        (*final(e))@,
                    ));
                }
                Some(e)
            },
            None => None,
        }
    }

    /// Sets the value of the entry with key `key` and enables it; `false`
    /// and no change if there is no such entry.
    pub fn set(&mut self, key: &str, value: &str) -> (r: bool)
        ensures
            r == has_key(old(self)@.entries, key@),
            final(self)@.path == old(self)@.path,
            r ==> final(self)@.entries == old(self)@.entries.update(
                key_index(old(self)@.entries, key@),
                (EntryModel {
                    key: old(self)@.entries[key_index(old(self)@.entries, key@)].key,
                    value: value@,
                    schema: old(self)@.entries[key_index(old(self)@.entries, key@)].schema,
                    enabled: true,
                }),
            ),
            !r ==> *final(self) == *old(self),
    {
        let ghost ev = self@.entries;
        match self.find_index(key) {
            Some(i) => {
                proof {
                    lemma_key_index(ev, key@);
                }
                let e = vstd::std_specs::vec::vec_index_mut(&mut self.entries, i);
                e.value = value.to_owned();
                e.enabled = true;
                proof {
                    assert(entry_views(self.entries@) =~= ev.update(
                        i as int,
                        (EntryModel {
                            key: ev[i as int].key,
                            value: value@,
                            schema: ev[i as int].schema,
                            enabled: true,
                        }),
                    ));
                }
                true
            },
            None => false,
        }
    }

    /// Enables the entry with key `key` without touching its value; `false`
    /// and no change if there is no such entry.
    pub fn enable(&mut self, key: &str) -> (r: bool)
        ensures
            r == has_key(old(self)@.entries, key@),
            final(self)@.path == old(self)@.path,
            r ==> final(self)@.entries == old(self)@.entries.update(
                key_index(old(self)@.entries, key@),
                (EntryModel {
                    enabled: true,
                    ..old(self)@.entries[key_index(old(self)@.entries, key@)]
                }),
            ),
            !r ==> *final(self) == *old(self),
    {
        let ghost ev = self@.entries;
        match self.find_index(key) {
            Some(i) => {
                proof {
                    lemma_key_index(ev, key@);
                }
                let e = vstd::std_specs::vec::vec_index_mut(&mut self.entries, i);
                e.enabled = true;
                proof {
                    assert(entry_views(self.entries@) =~= ev.update(
                        i as int,
                        (EntryModel { enabled: true, ..ev[i as int] }),
                    ));
                }
                true
            },
            None => false,
        }
    }

    /// Disables the entry with key `key` without touching its value: it
    /// keeps its value in memory but is left out of the saved file.
    pub fn disable(&mut self, key: &str) -> (r: bool)
        ensures
            r == has_key(old(self)@.entries, key@),
            final(self)@.path == old(self)@.path,
            r ==> final(self)@.entries == old(self)@.entries.update(
                key_index(old(self)@.entries, key@),
                (EntryModel {
                    enabled: false,
                    ..old(self)@.entries[key_index(old(self)@.entries, key@)]
                }),
            ),
            !r ==> *final(self) == *old(self),
    {
        let ghost ev = self@.entries;
        match self.find_index(key) {
            Some(i) => {
                proof {
                    lemma_key_index(ev, key@);
                }
                let e = vstd::std_specs::vec::vec_index_mut(&mut self.entries, i);
                e.enabled = false;
                proof {
                    assert(entry_views(self.entries@) =~= ev.update(
                        i as int,
                        (EntryModel { enabled: false, ..ev[i as int] }),
                    ));
                }
                true
            },
            None => false,
        }
    }

    /// Upserts a schema-less entry: an existing entry with this key gets the
    /// value and is enabled; otherwise a new enabled entry is appended.
    pub fn add_custom(&mut self, key: &str, value: &str)
        ensures
            final(self)@.path == old(self)@.path,
            has_key(old(self)@.entries, key@) ==> final(self)@.entries == old(
                self,
            )@.entries.update(
                key_index(old(self)@.entries, key@),
                (EntryModel {
                    key: old(self)@.entries[key_index(old(self)@.entries, key@)].key,
                    value: value@,
                    schema: old(self)@.entries[key_index(old(self)@.entries, key@)].schema,
                    enabled: true,
                }),
            ),
            !has_key(old(self)@.entries, key@) ==> final(self)@.entries == old(
                self,
            )@.entries.push(
                (EntryModel { key: key@, value: value@, schema: None, enabled: true }),
            ),
    {
        let ghost ev = self@.entries;
        match self.find_index(key) {
            Some(i) => {
                proof {
                    lemma_key_index(ev, key@);
                }
                let e = vstd::std_specs::vec::vec_index_mut(&mut self.entries, i);
                e.value = value.to_owned();
                e.enabled = true;
                proof {
                    assert(entry_views(self.entries@) =~= ev.update(
                        i as int,
                        (EntryModel {
                            key: ev[i as int].key,
                            value: value@,
                            schema: ev[i as int].schema,
                            enabled: true,
                        }),
                    ));
                }
            },
            None => {
                self.entries.push(
                    ConfigEntry {
                        key: key.to_owned(),
                        value: value.to_owned(),
                        schema: None,
                        enabled: true,
                    },
                );
                proof {
                    assert(entry_views(self.entries@) =~= ev.push(
                        (EntryModel { key: key@, value: value@, schema: None, enabled: true }),
                    ));
                }
            },
        }
    }

    /// Removes every entry with key `key`; `true` iff one existed.
    pub fn remove(&mut self, key: &str) -> (r: bool)
        ensures
            r == has_key(old(self)@.entries, key@),
            final(self)@.path == old(self)@.path,
            final(self)@.entries == old(self)@.entries.filter(
                |e: EntryModel| e.key != key@,
            ),
    {
        let ghost ev = self@.entries;
        let kc = str_to_chars(key);
        let mut kept: Vec<ConfigEntry> = Vec::new();
        let mut found = false;
        let mut i: usize = 0;
        proof {
            assert(ev.take(0) =~= Seq::<EntryModel>::empty());
            assert(entry_views(kept@) =~= ev.take(0).filter(|e: EntryModel| e.key != key@));
        }
        while i < self.entries.len()
            invariant
                i <= self.entries@.len(),
                ev == entry_views(self.entries@),
                kc@ == key@,
                kept@.len() <= i,
                entry_views(kept@) == ev.take(i as int).filter(|e: EntryModel| e.key != key@),
                found == exists|j: int| 0 <= j < i && ev[j].key == key@,
            decreases self.entries@.len() - i,
        {
            let ghost prev = entry_views(kept@);
            proof {
                assert(ev.take(i as int + 1) =~= ev.take(i as int).push(ev[i as int]));
                ev.take(i as int).lemma_filter_push(
                    ev[i as int],
                    |e: EntryModel| e.key != key@,
                );
            }
            let e = &self.entries[i];
            if str_eq_chars(e.key.as_str(), &kc) {
                found = true;
                proof {
                    assert(ev[i as int].key == key@);
                }
            } else {
                kept.push(e.duplicate());
                proof {
                    assert(entry_views(kept@) =~= prev.push(ev[i as int]));
                }
            }
            i += 1;
        }
        proof {
            assert(ev.take(ev.len() as int) =~= ev);
            lemma_key_index(ev, key@);
        }
        self.entries = kept;
        found
    }

    /// References to all enabled entries, in document order.
    pub fn enabled_entries(&self) -> (r: Vec<&ConfigEntry>)
        ensures
            r@.map_values(|e: &ConfigEntry| e@) == enabled_of(self@.entries),
    {
        let ghost ev = self@.entries;
        let mut r: Vec<&ConfigEntry> = Vec::new();
        let mut i: usize = 0;
        proof {
            assert(ev.take(0) =~= Seq::<EntryModel>::empty());
            assert(r@.map_values(|e: &ConfigEntry| e@) =~= ev.take(0).filter(
                |e: EntryModel| e.enabled,
            ));
        }
        while i < self.entries.len()
            invariant
                i <= self.entries@.len(),
                ev == entry_views(self.entries@),
                r@.map_values(|e: &ConfigEntry| e@) == ev.take(i as int).filter(
                    |e: EntryModel| e.enabled,
                ),
            decreases self.entries@.len() - i,
        {
            let ghost prev = r@.map_values(|e: &ConfigEntry| e@);
            proof {
                assert(ev.take(i as int + 1) =~= ev.take(i as int).push(ev[i as int]));
                ev.take(i as int).lemma_filter_push(ev[i as int], |e: EntryModel| e.enabled);
            }
            let e = &self.entries[i];
            if e.enabled {
                r.push(e);
                proof {
                    assert(r@.map_values(|e: &ConfigEntry| e@) =~= prev.push(ev[i as int]));
                }
            }
            i += 1;
        }
        proof {
            assert(ev.take(ev.len() as int) =~= ev);
        }
        r
    }

    /// References to the entries whose catalog record belongs to `category`,
    /// in document order.
    pub fn entries_by_category(&self, category: ConfigCategory) -> (r: Vec<&ConfigEntry>)
        ensures
            r@.map_values(|e: &ConfigEntry| e@) == self@.entries.filter(
                |e: EntryModel| in_category(e, category),
            ),
    {
        let ghost ev = self@.entries;
        let mut r: Vec<&ConfigEntry> = Vec::new();
        let mut i: usize = 0;
        proof {
            assert(ev.take(0) =~= Seq::<EntryModel>::empty());
            assert(r@.map_values(|e: &ConfigEntry| e@) =~= ev.take(0).filter(
                |e: EntryModel| in_category(e, category),
            ));
        }
        while i < self.entries.len()
            invariant
                i <= self.entries@.len(),
                ev == entry_views(self.entries@),
                r@.map_values(|e: &ConfigEntry| e@) == ev.take(i as int).filter(
                    |e: EntryModel| in_category(e, category),
                ),
            decreases self.entries@.len() - i,
        {
            let ghost prev = r@.map_values(|e: &ConfigEntry| e@);
            proof {
                assert(ev.take(i as int + 1) =~= ev.take(i as int).push(ev[i as int]));
                ev.take(i as int).lemma_filter_push(
                    ev[i as int],
                    |e: EntryModel| in_category(e, category),
                );
            }
            let e = &self.entries[i];
            let matches_cat = match &e.schema {
                Some(sc) => {
                    let c = sc.category;
                    c == category
                },
                None => false,
            };
            if matches_cat {
                r.push(e);
                proof {
                    assert(r@.map_values(|e: &ConfigEntry| e@) =~= prev.push(ev[i as int]));
                }
            }
            i += 1;
        }
        proof {
            assert(ev.take(ev.len() as int) =~= ev);
        }
        r
    }
}



/// The display rank of one entry.
pub(crate) fn rank_of_exec(e: &ConfigEntry) -> (r: usize)
    ensures
        r as int == rank_of(e@),
{
    match &e.schema {
        Some(s) => match s.category {
            ConfigCategory::Core => 0,
            ConfigCategory::Network => 1,
            ConfigCategory::RPC => 2,
            ConfigCategory::Wallet => 3,
            ConfigCategory::Debugging => 4,
            ConfigCategory::Mining => 5,
            ConfigCategory::Relay => 6,
            ConfigCategory::ZMQ => 7,
        },
        None => 8,
    }
}

impl BitcoinConfigFile {
    /// References to the enabled entries of one display rank.
    fn group_entries(&self, rank: usize) -> (r: Vec<&ConfigEntry>)
        ensures
            r@.map_values(|e: &ConfigEntry| e@) == group_of(self@.entries, rank as int),
    {
        let ghost ev = self@.entries;
        let mut r: Vec<&ConfigEntry> = Vec::new();
        let mut i: usize = 0;
        proof {
            assert(ev.take(0) =~= Seq::<EntryModel>::empty());
            assert(r@.map_values(|e: &ConfigEntry| e@) =~= ev.take(0).filter(
                |e: EntryModel| e.enabled && rank_of(e) == rank as int,
            ));
        }
        while i < self.entries.len()
            invariant
                i <= self.entries@.len(),
                ev == entry_views(self.entries@),
                r@.map_values(|e: &ConfigEntry| e@) == ev.take(i as int).filter(
                    |e: EntryModel| e.enabled && rank_of(e) == rank as int,
                ),
            decreases self.entries@.len() - i,
        {
            let ghost prev = r@.map_values(|e: &ConfigEntry| e@);
            proof {
                assert(ev.take(i as int + 1) =~= ev.take(i as int).push(ev[i as int]));
                ev.take(i as int).lemma_filter_push(
                    ev[i as int],
                    |e: EntryModel| e.enabled && rank_of(e) == rank as int,
                );
            }
            let e = &self.entries[i];
            if e.enabled && rank_of_exec(e) == rank {
                r.push(e);
                proof {
                    assert(r@.map_values(|e: &ConfigEntry| e@) =~= prev.push(ev[i as int]));
                }
            }
            i += 1;
        }
        proof {
            assert(ev.take(ev.len() as int) =~= ev);
        }
        r
    }

    /// The saved form of the document: enabled entries grouped by category
    /// in the fixed order, a heading comment per non-empty group, no
    /// section headers.
    pub fn to_config_string(&self) -> (r: String)
        ensures
            r@ == spec_serialize(self@.entries),
    {
        let ghost ev = self@.entries;
        let mut out: Vec<char> = Vec::new();
        let mut any = false;
        let mut rank: usize = 0;
        proof {
            assert(out@ + groups_text(ev, 0, false) =~= spec_serialize(ev));
        }
        while rank < 9
            invariant
                rank <= 9,
                ev == self@.entries,
                out@ + groups_text(ev, rank as int, any) == spec_serialize(ev),
            decreases 9 - rank,
        {
            let group = self.group_entries(rank);
            let ghost gv = group_of(ev, rank as int);
            proof {
                assert(group@.map_values(|e: &ConfigEntry| e@).len() == group@.len());
            }
            if group.len() == 0 {
                proof {
                    assert(groups_text(ev, rank as int, any) == groups_text(
                        ev,
                        rank as int + 1,
                        any,
                    ));
                }
            } else {
                let ghost out0 = out@;
                if any {
                    out.push('\n');
                }
                let ghost out1 = out@;
                proof {
                    if any {
                        assert(out1 =~= out0 + seq!['\n']);
                    } else {
                        assert(out1 =~= out0 + Seq::<char>::empty());
                    }
                }
                if rank == 0 {
                    append_str(&mut out, "# Core\n");
                } else if rank == 1 {
                    append_str(&mut out, "# Network\n");
                } else if rank == 2 {
                    append_str(&mut out, "# RPC\n");
                } else if rank == 3 {
                    append_str(&mut out, "# Wallet\n");
                } else if rank == 4 {
                    append_str(&mut out, "# Debugging\n");
                } else if rank == 5 {
                    append_str(&mut out, "# Mining\n");
                } else if rank == 6 {
                    append_str(&mut out, "# Relay\n");
                } else {
                    append_str(&mut out, "# Custom\n");
                }
                let ghost out2 = out@;
                proof {
                    assert(out2 == out1 + rank_label(rank as int));
                }
                let mut gi: usize = 0;
                proof {
                    assert(gv.take(0) =~= Seq::<EntryModel>::empty());
                    assert(out@ =~= out2 + group_lines(gv.take(0)));
                }
                while gi < group.len()
                    invariant
                        gi <= group@.len(),
                        group@.map_values(|e: &ConfigEntry| e@) == gv,
                        group@.len() == gv.len(),
                        out@ == out2 + group_lines(gv.take(gi as int)),
                    decreases group@.len() - gi,
                {
                    let ghost outp = out@;
                    let e = group[gi];
                    proof {
                        assert(group@.map_values(|x: &ConfigEntry| x@)[gi as int] == gv[gi
                            as int]);
                    }
                    append_str(&mut out, e.key.as_str());
                    out.push('=');
                    append_str(&mut out, e.value.as_str());
                    out.push('\n');
                    gi += 1;
                    proof {
                        assert(out@ =~= outp + (gv[gi - 1].key + seq!['='] + gv[gi - 1].value
                            + seq!['\n']));
                        assert(gv.take(gi as int) =~= gv.take(gi as int - 1) + seq![gv[gi - 1]]);
                        lemma_group_lines_append(gv.take(gi as int - 1), seq![gv[gi - 1]]);
                        assert(seq![gv[gi - 1]].drop_first() =~= Seq::<EntryModel>::empty());
                        assert(group_lines(Seq::<EntryModel>::empty()) =~= Seq::<char>::empty());
                        assert(group_lines(seq![gv[gi - 1]]) =~= gv[gi - 1].key + seq!['=']
                            + gv[gi - 1].value + seq!['\n']);
                        assert(out@ =~= out2 + group_lines(gv.take(gi as int)));
                    }
                }
                proof {
                    assert(gv.take(gv.len() as int) =~= gv);
                    assert(groups_text(ev, rank as int, any) == (if any {
                        seq!['\n']
                    } else {
                        Seq::<char>::empty()
                    }) + rank_label(rank as int) + group_lines(gv) + groups_text(
                        ev,
                        rank as int + 1,
                        true,
                    ));
                    assert(out@ + groups_text(ev, rank as int + 1, true) =~= out0 + groups_text(
                        ev,
                        rank as int,
                        any,
                    ));
                }
                any = true;
            }
            rank += 1;
        }
        proof {
            assert(groups_text(ev, 9, any) == Seq::<char>::empty());
            assert(out@ + Seq::<char>::empty() =~= out@);
        }
        chars_to_string(&out)
    }
}


} // verus!
