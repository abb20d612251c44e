//! Node configuration: the defaults, reading the values a configuration
//! file holds over them, and the values written back to a file.

use vstd::prelude::*;
use crate::pex::{multiaddr_parse, parse_multiaddr, Addr};
use crate::gateway::{hex_decode, hex_encode, lemma_hex_roundtrip, spec_hex_decode, spec_hex_encode};
use crate::toml_doc::{
    lemma_array_view, lemma_table_view, parse_toml, pretty_toml, spec_entries_view, spec_entry, spec_items_view,
    spec_toml_get, toml_document, toml_get, toml_pretty_text, TomlValue, TomlView,
};

verus! {

/// Genesis parameters.
#[derive(Clone, Debug, PartialEq, Eq)]
pub struct GenesisConfig {
    /// Precomputed global state root; an empty root when absent.
    pub state_root: Option<[u8; 32]>,
}

/// Networking parameters.
#[derive(Clone, Debug, PartialEq, Eq)]
pub struct NetworkConfig {
    /// Minimum number of peers (excluding self) required to produce blocks.
    pub min_peers: usize,
    /// Bootnodes dialled on startup.
    pub bootnodes: Vec<String>,
    /// Local mDNS discovery.
    pub enable_mdns: bool,
    /// Only encrypted transports.
    pub require_encryption: bool,
    /// Hard cap on inbound connections.
    pub max_inbound_connections: usize,
    /// Cap on concurrent inbound request/response streams.
    pub max_inbound_streams: usize,
    /// Largest gossip message, in bytes.
    pub max_gossip_bytes: usize,
}

/// RPC authentication parameters.
#[derive(Clone, Debug, PartialEq, Eq)]
pub struct RpcAuthConfig {
    pub enable: bool,
    /// Public identifier clients send with requests.
    pub project_id: String,
    /// Path to the encrypted primary secret.
    pub secret_path: Option<String>,
    /// Path to a secondary encrypted secret, for rotation.
    pub secondary_secret_path: Option<String>,
    /// Allowed clock skew in milliseconds.
    pub skew_ms: u64,
    /// Nonce lifetime in milliseconds.
    pub nonce_ttl_ms: u64,
    /// How many nonces are remembered against replay.
    pub nonce_capacity: usize,
    /// Allowed HTTP methods (uppercase); empty allows all.
    pub allowed_methods: Vec<String>,
    /// Requests per minute; zero disables the limit.
    pub rate_limit_per_minute: u64,
}

/// The whole node configuration.
#[derive(Clone, Debug, PartialEq, Eq)]
pub struct OnvmConfig {
    pub genesis: GenesisConfig,
    pub network: NetworkConfig,
    pub rpc_auth: RpcAuthConfig,
}

/// The bootnode a node dials when none is configured.
pub const DEFAULT_BOOTNODE: &'static str = "/ip4/192.168.1.102/tcp/37000/p2p/12D3KooWQUX1oDS8r2v1q27bJ9TwHhuBDy7hJCX6SqgrkVLF1f27";

/// The project identifier when none is configured.
pub const DEFAULT_PROJECT_ID: &'static str = "default-project";

impl Default for OnvmConfig {
    fn default() -> (res: Self)
        ensures
            res.genesis.state_root is None,
            res.network.min_peers == 1,
            res.network.bootnodes@.len() == 1,
            res.network.bootnodes@[0]@ == DEFAULT_BOOTNODE@,
            !res.network.enable_mdns,
            res.network.require_encryption,
            res.network.max_inbound_connections == 200,
            res.network.max_inbound_streams == 64,
            res.network.max_gossip_bytes == 256 * 1024,
            !res.rpc_auth.enable,
            res.rpc_auth.project_id@ == DEFAULT_PROJECT_ID@,
            res.rpc_auth.secret_path is None,
            res.rpc_auth.secondary_secret_path is None,
            res.rpc_auth.skew_ms == 5 * 60 * 1000,
            res.rpc_auth.nonce_ttl_ms == 10 * 60 * 1000,
            res.rpc_auth.nonce_capacity == 10_000,
            res.rpc_auth.allowed_methods@.len() == 0,
            res.rpc_auth.rate_limit_per_minute == 0,
    {
        let mut bootnodes: Vec<String> = Vec::new();
        bootnodes.push(String::from_str(DEFAULT_BOOTNODE));
        OnvmConfig {
            genesis: GenesisConfig { state_root: None },
            network: NetworkConfig {
                min_peers: 1,
                bootnodes,
                enable_mdns: false,
                require_encryption: true,
                max_inbound_connections: 200,
                max_inbound_streams: 64,
                max_gossip_bytes: 256 * 1024,
            },
            rpc_auth: RpcAuthConfig {
                enable: false,
                project_id: String::from_str(DEFAULT_PROJECT_ID),
                secret_path: None,
                secondary_secret_path: None,
                skew_ms: 5 * 60 * 1000,
                nonce_ttl_ms: 10 * 60 * 1000,
                nonce_capacity: 10_000,
                allowed_methods: Vec::new(),
                rate_limit_per_minute: 0,
            },
        }
    }
}

/// The values a configuration file holds, key by key (absent keys and keys
/// of another type are `None`; array entries that are not strings are left out).
#[derive(Clone, Debug, PartialEq, Eq)]
pub struct ConfigValues {
    pub state_root: Option<String>,
    pub min_peers: Option<i64>,
    pub bootnodes: Option<Vec<String>>,
    pub enable_mdns: Option<bool>,
    pub require_encryption: Option<bool>,
    pub max_inbound_connections: Option<i64>,
    pub max_inbound_streams: Option<i64>,
    pub max_gossip_bytes: Option<i64>,
    pub enable_rpc_auth: Option<bool>,
    pub project_id: Option<String>,
    pub secret_path: Option<String>,
    pub secondary_secret_path: Option<String>,
    pub skew_ms: Option<i64>,
    pub nonce_ttl_ms: Option<i64>,
    pub nonce_capacity: Option<i64>,
    pub allowed_methods: Option<Vec<String>>,
    pub rate_limit_per_minute: Option<i64>,
}

/// The texts of a list of strings.
pub open spec fn spec_texts(v: Seq<String>) -> Seq<Seq<char>> {
    v.map_values(|s: String| s@)
}

/// The text of an optional string.
pub open spec fn spec_opt_text(o: Option<String>) -> Option<Seq<char>> {
    match o {
        Some(s) => Some(s@),
        None => None,
    }
}

/// A configuration as plain values.
pub struct ConfigView {
    pub state_root: Option<Seq<u8>>,
    pub min_peers: usize,
    pub bootnodes: Seq<Seq<char>>,
    pub enable_mdns: bool,
    pub require_encryption: bool,
    pub max_inbound_connections: usize,
    pub max_inbound_streams: usize,
    pub max_gossip_bytes: usize,
    pub enable: bool,
    pub project_id: Seq<char>,
    pub secret_path: Option<Seq<char>>,
    pub secondary_secret_path: Option<Seq<char>>,
    pub skew_ms: u64,
    pub nonce_ttl_ms: u64,
    pub nonce_capacity: usize,
    pub allowed_methods: Seq<Seq<char>>,
    pub rate_limit_per_minute: u64,
}

/// The plain values of a configuration.
pub open spec fn spec_config_view(c: OnvmConfig) -> ConfigView {
    ConfigView {
        state_root: match c.genesis.state_root { Some(r) => Some(r@), None => None },
        min_peers: c.network.min_peers,
        bootnodes: spec_texts(c.network.bootnodes@),
        enable_mdns: c.network.enable_mdns,
        require_encryption: c.network.require_encryption,
        max_inbound_connections: c.network.max_inbound_connections,
        max_inbound_streams: c.network.max_inbound_streams,
        max_gossip_bytes: c.network.max_gossip_bytes,
        enable: c.rpc_auth.enable,
        project_id: c.rpc_auth.project_id@,
        secret_path: spec_opt_text(c.rpc_auth.secret_path),
        secondary_secret_path: spec_opt_text(c.rpc_auth.secondary_secret_path),
        skew_ms: c.rpc_auth.skew_ms,
        nonce_ttl_ms: c.rpc_auth.nonce_ttl_ms,
        nonce_capacity: c.rpc_auth.nonce_capacity,
        allowed_methods: spec_texts(c.rpc_auth.allowed_methods@),
        rate_limit_per_minute: c.rpc_auth.rate_limit_per_minute,
    }
}

/// The state root a file's text gives: 32 bytes of non-empty hexadecimal.
pub open spec fn spec_state_root_of(text: Seq<char>) -> Option<Seq<u8>> {
    if text.len() > 0 && spec_hex_decode(text) is Some && spec_hex_decode(text)->0.len() == 32 {
        spec_hex_decode(text)
    } else {
        None
    }
}

/// The values a configuration file holds, as mathematical values.
pub struct ValuesView {
    pub state_root: Option<Seq<char>>,
    pub min_peers: Option<i64>,
    pub bootnodes: Option<Seq<Seq<char>>>,
    pub enable_mdns: Option<bool>,
    pub require_encryption: Option<bool>,
    pub max_inbound_connections: Option<i64>,
    pub max_inbound_streams: Option<i64>,
    pub max_gossip_bytes: Option<i64>,
    pub enable_rpc_auth: Option<bool>,
    pub project_id: Option<Seq<char>>,
    pub secret_path: Option<Seq<char>>,
    pub secondary_secret_path: Option<Seq<char>>,
    pub skew_ms: Option<i64>,
    pub nonce_ttl_ms: Option<i64>,
    pub nonce_capacity: Option<i64>,
    pub allowed_methods: Option<Seq<Seq<char>>>,
    pub rate_limit_per_minute: Option<i64>,
}

/// The texts of an optional list of strings.
pub open spec fn spec_opt_texts(o: Option<Vec<String>>) -> Option<Seq<Seq<char>>> {
    match o {
        Some(v) => Some(spec_texts(v@)),
        None => None,
    }
}

impl View for ConfigValues {
    type V = ValuesView;

    open spec fn view(&self) -> ValuesView {
        ValuesView {
            state_root: spec_opt_text(self.state_root),
            min_peers: self.min_peers,
            bootnodes: spec_opt_texts(self.bootnodes),
            enable_mdns: self.enable_mdns,
            require_encryption: self.require_encryption,
            max_inbound_connections: self.max_inbound_connections,
            max_inbound_streams: self.max_inbound_streams,
            max_gossip_bytes: self.max_gossip_bytes,
            enable_rpc_auth: self.enable_rpc_auth,
            project_id: spec_opt_text(self.project_id),
            secret_path: spec_opt_text(self.secret_path),
            secondary_secret_path: spec_opt_text(self.secondary_secret_path),
            skew_ms: self.skew_ms,
            nonce_ttl_ms: self.nonce_ttl_ms,
            nonce_capacity: self.nonce_capacity,
            allowed_methods: spec_opt_texts(self.allowed_methods),
            rate_limit_per_minute: self.rate_limit_per_minute,
        }
    }
}

/// The configuration that a file's values give: each value present (and,
/// for the project id and secret paths, not empty; for the state root,
/// 32 bytes of hexadecimal) replaces the default.
pub open spec fn spec_apply_view(v: ValuesView) -> ConfigView {
    ConfigView {
        state_root: match v.state_root {
            Some(t) => spec_state_root_of(t),
            None => None,
        },
        min_peers: match v.min_peers { Some(x) => x as usize, None => 1usize },
        bootnodes: match v.bootnodes { Some(b) => b, None => seq![DEFAULT_BOOTNODE@] },
        enable_mdns: match v.enable_mdns { Some(x) => x, None => false },
        require_encryption: match v.require_encryption { Some(x) => x, None => true },
        max_inbound_connections: match v.max_inbound_connections { Some(x) => x as usize, None => 200usize },
        max_inbound_streams: match v.max_inbound_streams { Some(x) => x as usize, None => 64usize },
        max_gossip_bytes: match v.max_gossip_bytes { Some(x) => x as usize, None => 262144usize },
        enable: match v.enable_rpc_auth { Some(x) => x, None => false },
        project_id: match v.project_id {
            Some(s) => if s.len() > 0 { s } else { DEFAULT_PROJECT_ID@ },
            None => DEFAULT_PROJECT_ID@,
        },
        secret_path: match v.secret_path {
            Some(s) => if s.len() > 0 { Some(s) } else { None },
            None => None,
        },
        secondary_secret_path: match v.secondary_secret_path {
            Some(s) => if s.len() > 0 { Some(s) } else { None },
            None => None,
        },
        skew_ms: match v.skew_ms { Some(x) => x as u64, None => 300000u64 },
        nonce_ttl_ms: match v.nonce_ttl_ms { Some(x) => x as u64, None => 600000u64 },
        nonce_capacity: match v.nonce_capacity { Some(x) => x as usize, None => 10000usize },
        allowed_methods: match v.allowed_methods { Some(m) => m, None => Seq::empty() },
        rate_limit_per_minute: match v.rate_limit_per_minute { Some(x) => x as u64, None => 0u64 },
    }
}

fn copy_texts(v: &Vec<String>) -> (res: Vec<String>)
    ensures
        spec_texts(res@) == spec_texts(v@),
{
    let mut out: Vec<String> = Vec::new();
    let mut i: usize = 0;
    while i < v.len()
        invariant
            i <= v@.len(),
            spec_texts(out@) == spec_texts(v@.take(i as int)),
        decreases v@.len() - i,
    {
        let s = v[i].clone();
        let ghost before = out@;
        out.push(s);
        assert(spec_texts(out@) =~= spec_texts(before).push(s@));
        assert(spec_texts(v@.take(i + 1)) =~= spec_texts(v@.take(i as int)).push(v@[i as int]@));
        i = i + 1;
    }
    assert(v@.take(v@.len() as int) =~= v@);
    out
}

fn state_root_of(text: &String) -> (res: Option<[u8; 32]>)
    ensures
        match res {
            Some(r) => spec_state_root_of(text@) == Some(r@),
            None => spec_state_root_of(text@) is None,
        },
{
    if text.as_str().unicode_len() == 0 {
        return None;
    }
    let bytes = match hex_decode(text.as_str()) {
        Some(b) => b,
        None => return None,
    };
    if bytes.len() != 32 {
        return None;
    }
    let mut arr = [0u8; 32];
    let mut i: usize = 0;
    while i < 32
        invariant
            i <= 32,
            bytes@.len() == 32,
            forall|j: int| 0 <= j < i ==> arr@[j] == bytes@[j],
        decreases 32 - i,
    {
        arr[i] = bytes[i];
        i = i + 1;
    }
    assert(arr@ =~= bytes@);
    Some(arr)
}

fn non_empty(s: Option<String>) -> (res: Option<String>)
    ensures
        spec_opt_text(res) == match s {
            Some(t) => if t@.len() > 0 { Some(t@) } else { None },
            None => None,
        },
{
    match s {
        Some(t) => if t.as_str().unicode_len() > 0 { Some(t) } else { None },
        None => None,
    }
}

fn opt_usize(x: Option<i64>, default: usize) -> (res: usize)
    ensures
        res == match x { Some(y) => y as usize, None => default },
{
    match x {
        Some(y) => y as usize,
        None => default,
    }
}

fn opt_u64(x: Option<i64>, default: u64) -> (res: u64)
    ensures
        res == match x { Some(y) => y as u64, None => default },
{
    match x {
        Some(y) => y as u64,
        None => default,
    }
}

fn opt_bool(x: Option<bool>, default: bool) -> (res: bool)
    ensures
        res == match x { Some(y) => y, None => default },
{
    match x {
        Some(y) => y,
        None => default,
    }
}

fn texts_or(x: Option<Vec<String>>, default: Vec<String>) -> (res: Vec<String>)
    ensures
        spec_texts(res@) == match x { Some(v) => spec_texts(v@), None => spec_texts(default@) },
{
    match x {
        Some(v) => v,
        None => default,
    }
}

/// The configuration a file's values give over the defaults.
pub fn apply_values(v: ConfigValues) -> (res: OnvmConfig)
    ensures
        spec_config_view(res) == spec_apply_view(v@),
{
    let ghost v0 = v;
    let state_root = match &v.state_root {
        Some(root) => state_root_of(root),
        None => None,
    };
    let mut default_nodes: Vec<String> = Vec::new();
    default_nodes.push(String::from_str(DEFAULT_BOOTNODE));
    assert(spec_texts(default_nodes@) =~= seq![DEFAULT_BOOTNODE@]);
    let network = NetworkConfig {
        min_peers: opt_usize(v.min_peers, 1),
        bootnodes: texts_or(v.bootnodes, default_nodes),
        enable_mdns: opt_bool(v.enable_mdns, false),
        require_encryption: opt_bool(v.require_encryption, true),
        max_inbound_connections: opt_usize(v.max_inbound_connections, 200),
        max_inbound_streams: opt_usize(v.max_inbound_streams, 64),
        max_gossip_bytes: opt_usize(v.max_gossip_bytes, 262144),
    };
    let project_id = match v.project_id {
        Some(id) => if id.as_str().unicode_len() > 0 { id } else { String::from_str(DEFAULT_PROJECT_ID) },
        None => String::from_str(DEFAULT_PROJECT_ID),
    };
    let no_methods: Vec<String> = Vec::new();
    assert(spec_texts(no_methods@) =~= Seq::<Seq<char>>::empty());
    let rpc_auth = RpcAuthConfig {
        enable: opt_bool(v.enable_rpc_auth, false),
        project_id,
        secret_path: non_empty(v.secret_path),
        secondary_secret_path: non_empty(v.secondary_secret_path),
        skew_ms: opt_u64(v.skew_ms, 300000),
        nonce_ttl_ms: opt_u64(v.nonce_ttl_ms, 600000),
        nonce_capacity: opt_usize(v.nonce_capacity, 10000),
        allowed_methods: texts_or(v.allowed_methods, no_methods),
        rate_limit_per_minute: opt_u64(v.rate_limit_per_minute, 0),
    };
    let res = OnvmConfig { genesis: GenesisConfig { state_root }, network, rpc_auth };
    proof {
        let a = spec_config_view(res);
        let b = spec_apply_view(v0@);
        assert(a.state_root == b.state_root);
        assert(a.bootnodes == b.bootnodes);
        assert(a.project_id == b.project_id);
        assert(a.secret_path == b.secret_path);
        assert(a.secondary_secret_path == b.secondary_secret_path);
        assert(a.allowed_methods == b.allowed_methods);
    }
    res
}

/// What a configuration file written from `c` holds: every key, the state
/// root in hexadecimal (empty when there is none), integers as signed 64-bit
/// values and absent secret paths as empty strings.
pub open spec fn spec_written_view(c: OnvmConfig) -> ValuesView {
    ValuesView {
        state_root: Some(match c.genesis.state_root {
            Some(r) => spec_hex_encode(r@),
            None => Seq::<char>::empty(),
        }),
        min_peers: Some(c.network.min_peers as i64),
        bootnodes: Some(spec_texts(c.network.bootnodes@)),
        enable_mdns: Some(c.network.enable_mdns),
        require_encryption: Some(c.network.require_encryption),
        max_inbound_connections: Some(c.network.max_inbound_connections as i64),
        max_inbound_streams: Some(c.network.max_inbound_streams as i64),
        max_gossip_bytes: Some(c.network.max_gossip_bytes as i64),
        enable_rpc_auth: Some(c.rpc_auth.enable),
        project_id: Some(c.rpc_auth.project_id@),
        secret_path: Some(match c.rpc_auth.secret_path {
            Some(s) => s@,
            None => Seq::<char>::empty(),
        }),
        secondary_secret_path: Some(match c.rpc_auth.secondary_secret_path {
            Some(s) => s@,
            None => Seq::<char>::empty(),
        }),
        skew_ms: Some(c.rpc_auth.skew_ms as i64),
        nonce_ttl_ms: Some(c.rpc_auth.nonce_ttl_ms as i64),
        nonce_capacity: Some(c.rpc_auth.nonce_capacity as i64),
        allowed_methods: Some(spec_texts(c.rpc_auth.allowed_methods@)),
        rate_limit_per_minute: Some(c.rpc_auth.rate_limit_per_minute as i64),
    }
}

fn opt_text_or_empty(s: &Option<String>) -> (res: String)
    ensures
        res@ == match *s { Some(t) => t@, None => Seq::<char>::empty() },
{
    match s {
        Some(t) => t.clone(),
        None => String::new(),
    }
}

/// The values a configuration file written from `cfg` holds.
pub fn to_values(cfg: &OnvmConfig) -> (res: ConfigValues)
    ensures
        res@ == spec_written_view(*cfg),
{
    let state_root = match &cfg.genesis.state_root {
        Some(r) => hex_encode(r),
        None => String::new(),
    };
    ConfigValues {
        state_root: Some(state_root),
        min_peers: Some(cfg.network.min_peers as i64),
        bootnodes: Some(copy_texts(&cfg.network.bootnodes)),
        enable_mdns: Some(cfg.network.enable_mdns),
        require_encryption: Some(cfg.network.require_encryption),
        max_inbound_connections: Some(cfg.network.max_inbound_connections as i64),
        max_inbound_streams: Some(cfg.network.max_inbound_streams as i64),
        max_gossip_bytes: Some(cfg.network.max_gossip_bytes as i64),
        enable_rpc_auth: Some(cfg.rpc_auth.enable),
        project_id: Some(cfg.rpc_auth.project_id.clone()),
        secret_path: Some(opt_text_or_empty(&cfg.rpc_auth.secret_path)),
        secondary_secret_path: Some(opt_text_or_empty(&cfg.rpc_auth.secondary_secret_path)),
        skew_ms: Some(cfg.rpc_auth.skew_ms as i64),
        nonce_ttl_ms: Some(cfg.rpc_auth.nonce_ttl_ms as i64),
        nonce_capacity: Some(cfg.rpc_auth.nonce_capacity as i64),
        allowed_methods: Some(copy_texts(&cfg.rpc_auth.allowed_methods)),
        rate_limit_per_minute: Some(cfg.rpc_auth.rate_limit_per_minute as i64),
    }
}

proof fn lemma_usize_i64_roundtrip(x: usize)
    ensures
        (x as i64) as usize == x,
{
    assert((x as i64) as usize == x) by (bit_vector);
}

proof fn lemma_u64_i64_roundtrip(x: u64)
    ensures
        (x as i64) as u64 == x,
{
    assert((x as i64) as u64 == x) by (bit_vector);
}

/// A configuration written to a file reads back as the same configuration,
/// provided its project id is not empty and no secret path is empty (an
/// empty value in the file stands for the default).
pub proof fn lemma_config_roundtrip(c: OnvmConfig)
    requires
        c.rpc_auth.project_id@.len() > 0,
        c.rpc_auth.secret_path matches Some(s) ==> s@.len() > 0,
        c.rpc_auth.secondary_secret_path matches Some(s) ==> s@.len() > 0,
    ensures
        spec_apply_view(spec_written_view(c)) == spec_config_view(c),
{
    lemma_usize_i64_roundtrip(c.network.min_peers);
    lemma_usize_i64_roundtrip(c.network.max_inbound_connections);
    lemma_usize_i64_roundtrip(c.network.max_inbound_streams);
    lemma_usize_i64_roundtrip(c.network.max_gossip_bytes);
    lemma_usize_i64_roundtrip(c.rpc_auth.nonce_capacity);
    lemma_u64_i64_roundtrip(c.rpc_auth.skew_ms);
    lemma_u64_i64_roundtrip(c.rpc_auth.nonce_ttl_ms);
    lemma_u64_i64_roundtrip(c.rpc_auth.rate_limit_per_minute);
    match c.genesis.state_root {
        Some(r) => {
            lemma_hex_roundtrip(r@);
        },
        None => {},
    }
    let a = spec_apply_view(spec_written_view(c));
    let b = spec_config_view(c);
    assert(a.state_root == b.state_root);
    assert(a.secret_path == b.secret_path);
    assert(a.secondary_secret_path == b.secondary_secret_path);
}

// ---------------------------------------------------------------------------
// Configuration files as TOML documents
// ---------------------------------------------------------------------------

/// The value under `key` in the table under `section` of a document.
pub open spec fn spec_field(doc: TomlView, section: Seq<char>, key: Seq<char>) -> Option<TomlView> {
    match spec_toml_get(doc, section) {
        Some(t) => spec_toml_get(t, key),
        None => None,
    }
}

/// A string value's text.
pub open spec fn spec_as_text(o: Option<TomlView>) -> Option<Seq<char>> {
    match o {
        Some(TomlView::Str(s)) => Some(s),
        _ => None,
    }
}

/// An integer value.
pub open spec fn spec_as_int(o: Option<TomlView>) -> Option<i64> {
    match o {
        Some(TomlView::Int(i)) => Some(i),
        _ => None,
    }
}

/// A boolean value.
pub open spec fn spec_as_bool(o: Option<TomlView>) -> Option<bool> {
    match o {
        Some(TomlView::Bool(b)) => Some(b),
        _ => None,
    }
}

/// The strings among an array's items, in order; other items are left out.
pub open spec fn spec_strings_of(items: Seq<TomlView>) -> Seq<Seq<char>>
    decreases items.len(),
{
    if items.len() == 0 {
        Seq::empty()
    } else {
        let rest = spec_strings_of(items.drop_last());
        match items.last() {
            TomlView::Str(s) => rest.push(s),
            _ => rest,
        }
    }
}

/// An array value's strings.
pub open spec fn spec_as_texts(o: Option<TomlView>) -> Option<Seq<Seq<char>>> {
    match o {
        Some(TomlView::Array(items)) => Some(spec_strings_of(items)),
        _ => None,
    }
}

/// The values a configuration document holds: `[genesis]`, `[network]` and
/// `[rpc_auth]` keys of the expected kind; a key of another kind counts as
/// absent, and array items that are not strings are left out.
pub open spec fn spec_values_of(doc: TomlView) -> ValuesView {
    let g = "genesis"@;
    let n = "network"@;
    let r = "rpc_auth"@;
    ValuesView {
        state_root: spec_as_text(spec_field(doc, g, "state_root"@)),
        min_peers: spec_as_int(spec_field(doc, n, "min_peers"@)),
        bootnodes: spec_as_texts(spec_field(doc, n, "bootnodes"@)),
        enable_mdns: spec_as_bool(spec_field(doc, n, "enable_mdns"@)),
        require_encryption: spec_as_bool(spec_field(doc, n, "require_encryption"@)),
        max_inbound_connections: spec_as_int(spec_field(doc, n, "max_inbound_connections"@)),
        max_inbound_streams: spec_as_int(spec_field(doc, n, "max_inbound_streams"@)),
        max_gossip_bytes: spec_as_int(spec_field(doc, n, "max_gossip_bytes"@)),
        enable_rpc_auth: spec_as_bool(spec_field(doc, r, "enable_rpc_auth"@)),
        project_id: spec_as_text(spec_field(doc, r, "project_id"@)),
        secret_path: spec_as_text(spec_field(doc, r, "secret_path"@)),
        secondary_secret_path: spec_as_text(spec_field(doc, r, "secondary_secret_path"@)),
        skew_ms: spec_as_int(spec_field(doc, r, "skew_ms"@)),
        nonce_ttl_ms: spec_as_int(spec_field(doc, r, "nonce_ttl_ms"@)),
        nonce_capacity: spec_as_int(spec_field(doc, r, "nonce_capacity"@)),
        allowed_methods: spec_as_texts(spec_field(doc, r, "allowed_methods"@)),
        rate_limit_per_minute: spec_as_int(spec_field(doc, r, "rate_limit_per_minute"@)),
    }
}

fn field<'a>(doc: &'a TomlValue, section: &str, key: &str) -> (res: Option<&'a TomlValue>)
    ensures
        match spec_field(doc@, section@, key@) {
            Some(x) => res matches Some(r) && r@ == x,
            None => res is None,
        },
{
    match toml_get(doc, section) {
        Some(t) => toml_get(t, key),
        None => None,
    }
}

fn text_at(doc: &TomlValue, section: &str, key: &str) -> (res: Option<String>)
    ensures
        spec_opt_text(res) == spec_as_text(spec_field(doc@, section@, key@)),
{
    match field(doc, section, key) {
        Some(TomlValue::Str(s)) => Some(s.clone()),
        _ => None,
    }
}

fn int_at(doc: &TomlValue, section: &str, key: &str) -> (res: Option<i64>)
    ensures
        res == spec_as_int(spec_field(doc@, section@, key@)),
{
    match field(doc, section, key) {
        Some(TomlValue::Int(i)) => Some(*i),
        _ => None,
    }
}

fn bool_at(doc: &TomlValue, section: &str, key: &str) -> (res: Option<bool>)
    ensures
        res == spec_as_bool(spec_field(doc@, section@, key@)),
{
    match field(doc, section, key) {
        Some(TomlValue::Bool(b)) => Some(*b),
        _ => None,
    }
}

fn strings_in(items: &Vec<TomlValue>) -> (res: Vec<String>)
    ensures
        spec_texts(res@) == spec_strings_of(spec_items_view(items@)),
{
    let ghost iv = spec_items_view(items@);
    let mut out: Vec<String> = Vec::new();
    let mut i: usize = 0;
    assert(iv.take(0) =~= Seq::<TomlView>::empty());
    assert(spec_texts(out@) =~= Seq::<Seq<char>>::empty());
    while i < items.len()
        invariant
            i <= items@.len(),
            iv == spec_items_view(items@),
            spec_texts(out@) == spec_strings_of(iv.take(i as int)),
        decreases items@.len() - i,
    {
        assert(iv.take(i + 1).drop_last() =~= iv.take(i as int));
        assert(iv.take(i + 1).last() == items@[i as int]@);
        match &items[i] {
            TomlValue::Str(s) => {
                let ghost before = out@;
                out.push(s.clone());
                assert(spec_texts(out@) =~= spec_texts(before).push(s@));
            },
            _ => {},
        }
        i = i + 1;
    }
    assert(iv.take(items@.len() as int) =~= iv);
    out
}

fn texts_at(doc: &TomlValue, section: &str, key: &str) -> (res: Option<Vec<String>>)
    ensures
        spec_opt_texts(res) == spec_as_texts(spec_field(doc@, section@, key@)),
{
    match field(doc, section, key) {
        Some(TomlValue::Array(items)) => {
            proof {
                lemma_array_view(*items);
            }
            Some(strings_in(items))
        },
        _ => None,
    }
}

/// The values a configuration document holds, key by key.
pub fn values_of(doc: &TomlValue) -> (res: ConfigValues)
    ensures
        res@ == spec_values_of(doc@),
{
    let g = "genesis";
    let n = "network";
    let r = "rpc_auth";
    ConfigValues {
        state_root: text_at(doc, g, "state_root"),
        min_peers: int_at(doc, n, "min_peers"),
        bootnodes: texts_at(doc, n, "bootnodes"),
        enable_mdns: bool_at(doc, n, "enable_mdns"),
        require_encryption: bool_at(doc, n, "require_encryption"),
        max_inbound_connections: int_at(doc, n, "max_inbound_connections"),
        max_inbound_streams: int_at(doc, n, "max_inbound_streams"),
        max_gossip_bytes: int_at(doc, n, "max_gossip_bytes"),
        enable_rpc_auth: bool_at(doc, r, "enable_rpc_auth"),
        project_id: text_at(doc, r, "project_id"),
        secret_path: text_at(doc, r, "secret_path"),
        secondary_secret_path: text_at(doc, r, "secondary_secret_path"),
        skew_ms: int_at(doc, r, "skew_ms"),
        nonce_ttl_ms: int_at(doc, r, "nonce_ttl_ms"),
        nonce_capacity: int_at(doc, r, "nonce_capacity"),
        allowed_methods: texts_at(doc, r, "allowed_methods"),
        rate_limit_per_minute: int_at(doc, r, "rate_limit_per_minute"),
    }
}

/// The configuration a document gives over the defaults.
pub fn config_from_document(doc: &TomlValue) -> (res: OnvmConfig)
    ensures
        spec_config_view(res) == spec_apply_view(spec_values_of(doc@)),
{
    apply_values(values_of(doc))
}

/// Why a configuration file's text was refused.
#[derive(Clone, Copy, Debug, PartialEq, Eq, Structural)]
pub enum ConfigError {
    /// The text is not a TOML document.
    NotToml,
}

/// The configuration a configuration file's text gives over the defaults;
/// text that is not TOML is refused.
pub fn config_from_text(text: &str) -> (res: Result<OnvmConfig, ConfigError>)
    ensures
        toml_document(text@) is None ==> res == Err::<OnvmConfig, ConfigError>(ConfigError::NotToml),
        toml_document(text@) matches Some(d) ==> (res matches Ok(c) && spec_config_view(c) == spec_apply_view(
            spec_values_of(d),
        )),
{
    match parse_toml(text) {
        Some(doc) => Ok(config_from_document(&doc)),
        None => Err(ConfigError::NotToml),
    }
}

/// The entries with `key` bound to `value` added after them, when there is a value.
pub open spec fn spec_put(
    entries: Seq<(Seq<char>, TomlView)>,
    key: Seq<char>,
    value: Option<TomlView>,
) -> Seq<(Seq<char>, TomlView)> {
    match value {
        Some(x) => entries.push((key, x)),
        None => entries,
    }
}

/// A string value, when there is a text.
pub open spec fn spec_text_value(o: Option<Seq<char>>) -> Option<TomlView> {
    match o {
        Some(t) => Some(TomlView::Str(t)),
        None => None,
    }
}

/// An integer value, when there is one.
pub open spec fn spec_int_value(o: Option<i64>) -> Option<TomlView> {
    match o {
        Some(i) => Some(TomlView::Int(i)),
        None => None,
    }
}

/// A boolean value, when there is one.
pub open spec fn spec_bool_value(o: Option<bool>) -> Option<TomlView> {
    match o {
        Some(b) => Some(TomlView::Bool(b)),
        None => None,
    }
}

/// An array of strings.
pub open spec fn spec_text_array(t: Seq<Seq<char>>) -> TomlView {
    TomlView::Array(Seq::new(t.len(), |i: int| TomlView::Str(t[i])))
}

/// An array of strings, when there are texts.
pub open spec fn spec_texts_value(o: Option<Seq<Seq<char>>>) -> Option<TomlView> {
    match o {
        Some(t) => Some(spec_text_array(t)),
        None => None,
    }
}

/// The `[genesis]` table of a configuration file.
pub open spec fn spec_genesis_entries(v: ValuesView) -> Seq<(Seq<char>, TomlView)> {
    spec_put(Seq::empty(), "state_root"@, spec_text_value(v.state_root))
}

/// The `[network]` table of a configuration file.
pub open spec fn spec_network_entries(v: ValuesView) -> Seq<(Seq<char>, TomlView)> {
    let e = spec_put(Seq::empty(), "min_peers"@, spec_int_value(v.min_peers));
    let e = spec_put(e, "bootnodes"@, spec_texts_value(v.bootnodes));
    let e = spec_put(e, "enable_mdns"@, spec_bool_value(v.enable_mdns));
    let e = spec_put(e, "require_encryption"@, spec_bool_value(v.require_encryption));
    let e = spec_put(e, "max_inbound_connections"@, spec_int_value(v.max_inbound_connections));
    let e = spec_put(e, "max_inbound_streams"@, spec_int_value(v.max_inbound_streams));
    spec_put(e, "max_gossip_bytes"@, spec_int_value(v.max_gossip_bytes))
}

/// The `[rpc_auth]` table of a configuration file.
pub open spec fn spec_rpc_entries(v: ValuesView) -> Seq<(Seq<char>, TomlView)> {
    let e = spec_put(Seq::empty(), "enable_rpc_auth"@, spec_bool_value(v.enable_rpc_auth));
    let e = spec_put(e, "project_id"@, spec_text_value(v.project_id));
    let e = spec_put(e, "secret_path"@, spec_text_value(v.secret_path));
    let e = spec_put(e, "secondary_secret_path"@, spec_text_value(v.secondary_secret_path));
    let e = spec_put(e, "skew_ms"@, spec_int_value(v.skew_ms));
    let e = spec_put(e, "nonce_ttl_ms"@, spec_int_value(v.nonce_ttl_ms));
    let e = spec_put(e, "nonce_capacity"@, spec_int_value(v.nonce_capacity));
    let e = spec_put(e, "allowed_methods"@, spec_texts_value(v.allowed_methods));
    spec_put(e, "rate_limit_per_minute"@, spec_int_value(v.rate_limit_per_minute))
}

/// The TOML document holding a file's values: the `[genesis]`, `[network]`
/// and `[rpc_auth]` tables, each with the keys that have a value.
pub open spec fn spec_values_document(v: ValuesView) -> TomlView {
    TomlView::Table(
        seq![
            ("genesis"@, TomlView::Table(spec_genesis_entries(v))),
            ("network"@, TomlView::Table(spec_network_entries(v))),
            ("rpc_auth"@, TomlView::Table(spec_rpc_entries(v))),
        ],
    )
}

/// The TOML document of a configuration file written from `c`.
pub open spec fn spec_config_document(c: OnvmConfig) -> TomlView {
    spec_values_document(spec_written_view(c))
}

fn put_value(entries: &mut Vec<(String, TomlValue)>, key: &str, value: TomlValue)
    ensures
        spec_entries_view(final(entries)@) == spec_entries_view(old(entries)@).push((key@, value@)),
{
    let ghost before = entries@;
    let ghost vv = value@;
    entries.push((String::from_str(key), value));
    assert(spec_entries_view(entries@) =~= spec_entries_view(before).push((key@, vv)));
}

fn put_text(entries: &mut Vec<(String, TomlValue)>, key: &str, o: &Option<String>)
    ensures
        spec_entries_view(final(entries)@) == spec_put(spec_entries_view(old(entries)@), key@, spec_text_value(spec_opt_text(*o))),
{
    match o {
        Some(t) => put_value(entries, key, TomlValue::Str(t.clone())),
        None => {},
    }
}

fn put_int(entries: &mut Vec<(String, TomlValue)>, key: &str, o: Option<i64>)
    ensures
        spec_entries_view(final(entries)@) == spec_put(spec_entries_view(old(entries)@), key@, spec_int_value(o)),
{
    match o {
        Some(i) => put_value(entries, key, TomlValue::Int(i)),
        None => {},
    }
}

fn put_bool(entries: &mut Vec<(String, TomlValue)>, key: &str, o: Option<bool>)
    ensures
        spec_entries_view(final(entries)@) == spec_put(spec_entries_view(old(entries)@), key@, spec_bool_value(o)),
{
    match o {
        Some(b) => put_value(entries, key, TomlValue::Bool(b)),
        None => {},
    }
}

fn text_array(t: &Vec<String>) -> (res: TomlValue)
    ensures
        res@ == spec_text_array(spec_texts(t@)),
{
    let mut items: Vec<TomlValue> = Vec::new();
    let mut i: usize = 0;
    while i < t.len()
        invariant
            i <= t@.len(),
            spec_items_view(items@) =~= Seq::new(i as nat, |j: int| TomlView::Str(t@[j]@)),
        decreases t@.len() - i,
    {
        let ghost before = items@;
        items.push(TomlValue::Str(t[i].clone()));
        assert(spec_items_view(items@) =~= spec_items_view(before).push(TomlView::Str(t@[i as int]@)));
        i = i + 1;
    }
    proof {
        lemma_array_view(items);
        assert(spec_items_view(items@) =~= Seq::new(spec_texts(t@).len(), |j: int| TomlView::Str(spec_texts(t@)[j])));
    }
    TomlValue::Array(items)
}

fn put_texts(entries: &mut Vec<(String, TomlValue)>, key: &str, o: &Option<Vec<String>>)
    ensures
        spec_entries_view(final(entries)@) == spec_put(spec_entries_view(old(entries)@), key@, spec_texts_value(spec_opt_texts(*o))),
{
    match o {
        Some(t) => put_value(entries, key, text_array(t)),
        None => {},
    }
}

fn table_of(entries: Vec<(String, TomlValue)>) -> (res: TomlValue)
    ensures
        res@ == TomlView::Table(spec_entries_view(entries@)),
{
    proof {
        lemma_table_view(entries);
    }
    TomlValue::Table(entries)
}

/// The TOML document holding a file's values.
pub fn values_document(v: &ConfigValues) -> (res: TomlValue)
    ensures
        res@ == spec_values_document(v@),
{
    let mut genesis: Vec<(String, TomlValue)> = Vec::new();
    assert(spec_entries_view(genesis@) =~= Seq::<(Seq<char>, TomlView)>::empty());
    put_text(&mut genesis, "state_root", &v.state_root);
    let mut network: Vec<(String, TomlValue)> = Vec::new();
    assert(spec_entries_view(network@) =~= Seq::<(Seq<char>, TomlView)>::empty());
    put_int(&mut network, "min_peers", v.min_peers);
    put_texts(&mut network, "bootnodes", &v.bootnodes);
    put_bool(&mut network, "enable_mdns", v.enable_mdns);
    put_bool(&mut network, "require_encryption", v.require_encryption);
    put_int(&mut network, "max_inbound_connections", v.max_inbound_connections);
    put_int(&mut network, "max_inbound_streams", v.max_inbound_streams);
    put_int(&mut network, "max_gossip_bytes", v.max_gossip_bytes);
    let mut rpc: Vec<(String, TomlValue)> = Vec::new();
    assert(spec_entries_view(rpc@) =~= Seq::<(Seq<char>, TomlView)>::empty());
    put_bool(&mut rpc, "enable_rpc_auth", v.enable_rpc_auth);
    put_text(&mut rpc, "project_id", &v.project_id);
    put_text(&mut rpc, "secret_path", &v.secret_path);
    put_text(&mut rpc, "secondary_secret_path", &v.secondary_secret_path);
    put_int(&mut rpc, "skew_ms", v.skew_ms);
    put_int(&mut rpc, "nonce_ttl_ms", v.nonce_ttl_ms);
    put_int(&mut rpc, "nonce_capacity", v.nonce_capacity);
    put_texts(&mut rpc, "allowed_methods", &v.allowed_methods);
    put_int(&mut rpc, "rate_limit_per_minute", v.rate_limit_per_minute);
    assert(spec_entries_view(genesis@) == spec_genesis_entries(v@));
    assert(spec_entries_view(network@) == spec_network_entries(v@));
    assert(spec_entries_view(rpc@) == spec_rpc_entries(v@));
    let mut root: Vec<(String, TomlValue)> = Vec::new();
    assert(spec_entries_view(root@) =~= Seq::<(Seq<char>, TomlView)>::empty());
    put_value(&mut root, "genesis", table_of(genesis));
    put_value(&mut root, "network", table_of(network));
    put_value(&mut root, "rpc_auth", table_of(rpc));
    assert(spec_entries_view(root@) =~= seq![
        ("genesis"@, TomlView::Table(spec_genesis_entries(v@))),
        ("network"@, TomlView::Table(spec_network_entries(v@))),
        ("rpc_auth"@, TomlView::Table(spec_rpc_entries(v@))),
    ]);
    table_of(root)
}

impl OnvmConfig {
    /// The TOML document of a configuration file written from this
    /// configuration.
    pub fn to_toml(&self) -> (res: TomlValue)
        ensures
            res@ == spec_config_document(*self),
    {
        values_document(&to_values(self))
    }
}

/// The text of a configuration file written from `c`: the document printed
/// by `toml::to_string_pretty`.
pub fn config_to_text(c: &OnvmConfig) -> (res: Option<String>)
    ensures
        spec_opt_text(res) == toml_pretty_text(spec_config_document(*c)),
{
    pretty_toml(&c.to_toml())
}

/// Looking a key up after an entry is added: an earlier entry for the key
/// still answers; otherwise the added entry does if it has the key.
proof fn lemma_entry_push(e: Seq<(Seq<char>, TomlView)>, p: (Seq<char>, TomlView), q: Seq<char>)
    ensures
        spec_entry(e.push(p), q) == (if spec_entry(e, q) is Some {
            spec_entry(e, q)
        } else if p.0 == q {
            Some(p.1)
        } else {
            None
        }),
    decreases e.len(),
{
    if e.len() > 0 {
        assert(e.push(p)[0] == e[0]);
        assert(e.push(p).drop_first() =~= e.drop_first().push(p));
        lemma_entry_push(e.drop_first(), p, q);
        if e[0].0 != q {
            assert(spec_entry(e, q) == spec_entry(e.drop_first(), q));
            assert(spec_entry(e.push(p), q) == spec_entry(e.drop_first().push(p), q));
        } else {
            assert(spec_entry(e, q) == Some(e[0].1));
            assert(spec_entry(e.push(p), q) == Some(e[0].1));
        }
    } else {
        assert(e.push(p)[0] == p);
        assert(e.push(p).drop_first() =~= Seq::<(Seq<char>, TomlView)>::empty());
        assert(spec_entry(e, q) is None);
        assert(spec_entry(Seq::<(Seq<char>, TomlView)>::empty(), q) is None);
        if p.0 == q {
            assert(spec_entry(e.push(p), q) == Some(p.1));
        } else {
            assert(spec_entry(e.push(p), q) is None);
        }
    }
}

proof fn lemma_put_get(e: Seq<(Seq<char>, TomlView)>, key: Seq<char>, value: Option<TomlView>)
    ensures
        forall|q: Seq<char>|
            #[trigger] spec_entry(spec_put(e, key, value), q) == (if spec_entry(e, q) is Some {
                spec_entry(e, q)
            } else if key == q {
                value
            } else {
                None
            }),
{
    assert forall|q: Seq<char>|
        #[trigger] spec_entry(spec_put(e, key, value), q) == (if spec_entry(e, q) is Some {
            spec_entry(e, q)
        } else if key == q {
            value
        } else {
            None
        }) by {
        if let Some(x) = value {
            lemma_entry_push(e, (key, x), q);
        }
    }
}

/// Reading the strings of an array of strings gives them back.
proof fn lemma_strings_of_text_array(t: Seq<Seq<char>>)
    ensures
        spec_as_texts(Some(spec_text_array(t))) == Some(t),
    decreases t.len(),
{
    let items = Seq::new(t.len(), |i: int| TomlView::Str(t[i]));
    if t.len() > 0 {
        lemma_strings_of_text_array(t.drop_last());
        assert(items.drop_last() =~= Seq::new(t.drop_last().len(), |i: int| TomlView::Str(t.drop_last()[i])));
        assert(t.drop_last().push(t.last()) =~= t);
    } else {
        assert(t =~= Seq::<Seq<char>>::empty());
    }
}

/// A file written from some values reads back, key by key, as the same values.
pub proof fn lemma_document_values(v: ValuesView)
    ensures
        spec_values_of(spec_values_document(v)) == v,
{
    reveal_strlit("genesis");
    reveal_strlit("network");
    reveal_strlit("rpc_auth");
    reveal_strlit("state_root");
    reveal_strlit("min_peers");
    reveal_strlit("bootnodes");
    reveal_strlit("enable_mdns");
    reveal_strlit("require_encryption");
    reveal_strlit("max_inbound_connections");
    reveal_strlit("max_inbound_streams");
    reveal_strlit("max_gossip_bytes");
    reveal_strlit("enable_rpc_auth");
    reveal_strlit("project_id");
    reveal_strlit("secret_path");
    reveal_strlit("secondary_secret_path");
    reveal_strlit("skew_ms");
    reveal_strlit("nonce_ttl_ms");
    reveal_strlit("nonce_capacity");
    reveal_strlit("allowed_methods");
    reveal_strlit("rate_limit_per_minute");
    // Keys of one table differ from one another.
    assert("genesis"@[0] != "network"@[0]);
    assert("genesis"@.len() != "rpc_auth"@.len());
    assert("network"@.len() != "rpc_auth"@.len());
    assert("min_peers"@[0] != "bootnodes"@[0]);
    assert("min_peers"@.len() != "enable_mdns"@.len());
    assert("min_peers"@.len() != "require_encryption"@.len());
    assert("min_peers"@.len() != "max_inbound_connections"@.len());
    assert("min_peers"@.len() != "max_inbound_streams"@.len());
    assert("min_peers"@.len() != "max_gossip_bytes"@.len());
    assert("bootnodes"@.len() != "enable_mdns"@.len());
    assert("bootnodes"@.len() != "require_encryption"@.len());
    assert("bootnodes"@.len() != "max_inbound_connections"@.len());
    assert("bootnodes"@.len() != "max_inbound_streams"@.len());
    assert("bootnodes"@.len() != "max_gossip_bytes"@.len());
    assert("enable_mdns"@.len() != "require_encryption"@.len());
    assert("enable_mdns"@.len() != "max_inbound_connections"@.len());
    assert("enable_mdns"@.len() != "max_inbound_streams"@.len());
    assert("enable_mdns"@.len() != "max_gossip_bytes"@.len());
    assert("require_encryption"@.len() != "max_inbound_connections"@.len());
    assert("require_encryption"@.len() != "max_inbound_streams"@.len());
    assert("require_encryption"@.len() != "max_gossip_bytes"@.len());
    assert("max_inbound_connections"@.len() != "max_inbound_streams"@.len());
    assert("max_inbound_connections"@.len() != "max_gossip_bytes"@.len());
    assert("max_inbound_streams"@.len() != "max_gossip_bytes"@.len());
    assert("enable_rpc_auth"@.len() != "project_id"@.len());
    assert("enable_rpc_auth"@.len() != "secret_path"@.len());
    assert("enable_rpc_auth"@.len() != "secondary_secret_path"@.len());
    assert("enable_rpc_auth"@.len() != "skew_ms"@.len());
    assert("enable_rpc_auth"@.len() != "nonce_ttl_ms"@.len());
    assert("enable_rpc_auth"@.len() != "nonce_capacity"@.len());
    assert("enable_rpc_auth"@[0] != "allowed_methods"@[0]);
    assert("enable_rpc_auth"@.len() != "rate_limit_per_minute"@.len());
    assert("project_id"@.len() != "secret_path"@.len());
    assert("project_id"@.len() != "secondary_secret_path"@.len());
    assert("project_id"@.len() != "skew_ms"@.len());
    assert("project_id"@.len() != "nonce_ttl_ms"@.len());
    assert("project_id"@.len() != "nonce_capacity"@.len());
    assert("project_id"@.len() != "allowed_methods"@.len());
    assert("project_id"@.len() != "rate_limit_per_minute"@.len());
    assert("secret_path"@.len() != "secondary_secret_path"@.len());
    assert("secret_path"@.len() != "skew_ms"@.len());
    assert("secret_path"@.len() != "nonce_ttl_ms"@.len());
    assert("secret_path"@.len() != "nonce_capacity"@.len());
    assert("secret_path"@.len() != "allowed_methods"@.len());
    assert("secret_path"@.len() != "rate_limit_per_minute"@.len());
    assert("secondary_secret_path"@.len() != "skew_ms"@.len());
    assert("secondary_secret_path"@.len() != "nonce_ttl_ms"@.len());
    assert("secondary_secret_path"@.len() != "nonce_capacity"@.len());
    assert("secondary_secret_path"@.len() != "allowed_methods"@.len());
    assert("secondary_secret_path"@[0] != "rate_limit_per_minute"@[0]);
    assert("skew_ms"@.len() != "nonce_ttl_ms"@.len());
    assert("skew_ms"@.len() != "nonce_capacity"@.len());
    assert("skew_ms"@.len() != "allowed_methods"@.len());
    assert("skew_ms"@.len() != "rate_limit_per_minute"@.len());
    assert("nonce_ttl_ms"@.len() != "nonce_capacity"@.len());
    assert("nonce_ttl_ms"@.len() != "allowed_methods"@.len());
    assert("nonce_ttl_ms"@.len() != "rate_limit_per_minute"@.len());
    assert("nonce_capacity"@.len() != "allowed_methods"@.len());
    assert("nonce_capacity"@.len() != "rate_limit_per_minute"@.len());
    assert("allowed_methods"@.len() != "rate_limit_per_minute"@.len());
    let empty = Seq::<(Seq<char>, TomlView)>::empty();
    let ge = spec_genesis_entries(v);
    lemma_put_get(empty, "state_root"@, spec_text_value(v.state_root));
    let n1 = spec_put(empty, "min_peers"@, spec_int_value(v.min_peers));
    let n2 = spec_put(n1, "bootnodes"@, spec_texts_value(v.bootnodes));
    let n3 = spec_put(n2, "enable_mdns"@, spec_bool_value(v.enable_mdns));
    let n4 = spec_put(n3, "require_encryption"@, spec_bool_value(v.require_encryption));
    let n5 = spec_put(n4, "max_inbound_connections"@, spec_int_value(v.max_inbound_connections));
    let n6 = spec_put(n5, "max_inbound_streams"@, spec_int_value(v.max_inbound_streams));
    lemma_put_get(empty, "min_peers"@, spec_int_value(v.min_peers));
    lemma_put_get(n1, "bootnodes"@, spec_texts_value(v.bootnodes));
    lemma_put_get(n2, "enable_mdns"@, spec_bool_value(v.enable_mdns));
    lemma_put_get(n3, "require_encryption"@, spec_bool_value(v.require_encryption));
    lemma_put_get(n4, "max_inbound_connections"@, spec_int_value(v.max_inbound_connections));
    lemma_put_get(n5, "max_inbound_streams"@, spec_int_value(v.max_inbound_streams));
    lemma_put_get(n6, "max_gossip_bytes"@, spec_int_value(v.max_gossip_bytes));
    let r1 = spec_put(empty, "enable_rpc_auth"@, spec_bool_value(v.enable_rpc_auth));
    let r2 = spec_put(r1, "project_id"@, spec_text_value(v.project_id));
    let r3 = spec_put(r2, "secret_path"@, spec_text_value(v.secret_path));
    let r4 = spec_put(r3, "secondary_secret_path"@, spec_text_value(v.secondary_secret_path));
    let r5 = spec_put(r4, "skew_ms"@, spec_int_value(v.skew_ms));
    let r6 = spec_put(r5, "nonce_ttl_ms"@, spec_int_value(v.nonce_ttl_ms));
    let r7 = spec_put(r6, "nonce_capacity"@, spec_int_value(v.nonce_capacity));
    let r8 = spec_put(r7, "allowed_methods"@, spec_texts_value(v.allowed_methods));
    lemma_put_get(empty, "enable_rpc_auth"@, spec_bool_value(v.enable_rpc_auth));
    lemma_put_get(r1, "project_id"@, spec_text_value(v.project_id));
    lemma_put_get(r2, "secret_path"@, spec_text_value(v.secret_path));
    lemma_put_get(r3, "secondary_secret_path"@, spec_text_value(v.secondary_secret_path));
    lemma_put_get(r4, "skew_ms"@, spec_int_value(v.skew_ms));
    lemma_put_get(r5, "nonce_ttl_ms"@, spec_int_value(v.nonce_ttl_ms));
    lemma_put_get(r6, "nonce_capacity"@, spec_int_value(v.nonce_capacity));
    lemma_put_get(r7, "allowed_methods"@, spec_texts_value(v.allowed_methods));
    lemma_put_get(r8, "rate_limit_per_minute"@, spec_int_value(v.rate_limit_per_minute));
    let ga = ("genesis"@, TomlView::Table(ge));
    let na = ("network"@, TomlView::Table(spec_network_entries(v)));
    let ra = ("rpc_auth"@, TomlView::Table(spec_rpc_entries(v)));
    let root = seq![ga, na, ra];
    assert(root =~= empty.push(ga).push(na).push(ra));
    assert forall|q: Seq<char>| #[trigger] spec_entry(root, q) == (if q == "genesis"@ {
        Some(ga.1)
    } else if q == "network"@ {
        Some(na.1)
    } else if q == "rpc_auth"@ {
        Some(ra.1)
    } else {
        None
    }) by {
        lemma_entry_push(empty, ga, q);
        lemma_entry_push(empty.push(ga), na, q);
        lemma_entry_push(empty.push(ga).push(na), ra, q);
    }
    if let Some(t) = v.bootnodes {
        lemma_strings_of_text_array(t);
    }
    if let Some(t) = v.allowed_methods {
        lemma_strings_of_text_array(t);
    }
    // The fields, compared one by one.
    let w = spec_values_of(spec_values_document(v));
    assert(w.state_root == v.state_root);
    assert(w.min_peers == v.min_peers);
    assert(w.bootnodes == v.bootnodes);
    assert(w.allowed_methods == v.allowed_methods);
    assert(w.rate_limit_per_minute == v.rate_limit_per_minute);
}

/// A configuration written to a file as a TOML document reads back from
/// that document as the same configuration, provided its project id is not
/// empty and no secret path is empty (an empty value stands for the default).
pub proof fn lemma_config_document_roundtrip(c: OnvmConfig)
    requires
        c.rpc_auth.project_id@.len() > 0,
        c.rpc_auth.secret_path matches Some(s) ==> s@.len() > 0,
        c.rpc_auth.secondary_secret_path matches Some(s) ==> s@.len() > 0,
    ensures
        spec_apply_view(spec_values_of(spec_config_document(c))) == spec_config_view(c),
{
    lemma_document_values(spec_written_view(c));
    lemma_config_roundtrip(c);
}

/// Whether `pat` occurs in `s`.
pub open spec fn spec_contains_text(s: Seq<char>, pat: Seq<char>) -> bool {
    exists|i: int| 0 <= i && i + pat.len() <= s.len() && #[trigger] s.subrange(i, i + pat.len()) == pat
}

/// Whether `pat` occurs in `s`, character by character.
pub fn contains_text(s: &str, pat: &str) -> (res: bool)
    ensures
        res == spec_contains_text(s@, pat@),
{
    let n = s.unicode_len();
    let m = pat.unicode_len();
    if m > n {
        proof {
            assert forall|i: int| 0 <= i && i + pat@.len() <= s@.len() implies #[trigger] s@.subrange(i, i + pat@.len()) != pat@ by {}
        }
        return false;
    }
    let mut i: usize = 0;
    while i <= n - m
        invariant
            n == s@.len(),
            m == pat@.len(),
            m <= n,
            i <= n - m + 1,
            forall|k: int| 0 <= k < i ==> #[trigger] s@.subrange(k, k + m) != pat@,
        decreases n - i,
    {
        let mut j: usize = 0;
        let mut same = true;
        while j < m
            invariant
                j <= m,
                i + m <= n,
                n == s@.len(),
                m == pat@.len(),
                same == (forall|k: int| 0 <= k < j ==> s@[i + k] == pat@[k]),
            decreases m - j,
        {
            if s.get_char(i + j) != pat.get_char(j) {
                same = false;
            }
            j = j + 1;
        }
        if same {
            assert(s@.subrange(i as int, i + m) =~= pat@);
            return true;
        }
        proof {
            let k0 = choose|k: int| 0 <= k < m && s@[i + k] != pat@[k];
            assert(s@.subrange(i as int, i + m)[k0] != pat@[k0]);
        }
        i = i + 1;
    }
    proof {
        assert forall|k: int| 0 <= k && k + pat@.len() <= s@.len() implies #[trigger] s@.subrange(k, k + pat@.len()) != pat@ by {
            assert(k < i);
        }
    }
    false
}

fn last_index(s: &str, c: char) -> (res: Option<usize>)
    ensures
        match res {
            Some(i) => i < s@.len() && s@[i as int] == c && forall|j: int| i < j < s@.len() ==> s@[j] != c,
            None => forall|j: int| 0 <= j < s@.len() ==> s@[j] != c,
        },
{
    let n = s.unicode_len();
    let mut i: usize = n;
    while i > 0
        invariant
            i <= n,
            n == s@.len(),
            forall|j: int| i <= j < n ==> s@[j] != c,
        decreases i,
    {
        if s.get_char(i - 1) == c {
            return Some(i - 1);
        }
        i = i - 1;
    }
    None
}

/// A bootnode written as an address, or as an address followed by a peer id
/// (at least forty characters) without the `/p2p/` component.
pub open spec fn spec_parse_bootnode(raw: Seq<char>) -> Option<Addr> {
    if multiaddr_parse(raw) is Some {
        multiaddr_parse(raw)
    } else if !spec_contains_text(raw, "/p2p/"@) && exists|i: int| 0 <= i < raw.len() && raw[i] == '/' {
        let pos = choose|i: int| 0 <= i < raw.len() && raw[i] == '/' && forall|j: int| i < j < raw.len() ==> raw[j] != '/';
        let peer = raw.subrange(pos + 1, raw.len() as int);
        if peer.len() >= 40 {
            multiaddr_parse(raw.subrange(0, pos) + "/p2p/"@ + peer)
        } else {
            None
        }
    } else {
        None
    }
}

/// Read a bootnode given on the command line.
pub fn parse_bootnode_str(raw: &str) -> (res: Option<Addr>)
    ensures
        res == spec_parse_bootnode(raw@),
{
    if let Some(a) = parse_multiaddr(raw) {
        return Some(a);
    }
    if !contains_text(raw, "/p2p/") {
        if let Some(pos) = last_index(raw, '/') {
            let n = raw.unicode_len();
            let prefix = raw.substring_char(0, pos);
            let peer = raw.substring_char(pos + 1, n);
            if peer.unicode_len() >= 40 {
                let candidate = String::from_str(prefix).concat("/p2p/").concat(peer);
                proof {
                    let p = choose|i: int| 0 <= i < raw@.len() && raw@[i] == '/' && forall|j: int| i < j < raw@.len() ==> raw@[j] != '/';
                    assert(p == pos as int) by {
                        if p < pos { assert(raw@[pos as int] != '/'); }
                        if p > pos { assert(raw@[p] != '/'); }
                    }
                }
                return parse_multiaddr(candidate.as_str());
            }
            proof {
                let p = choose|i: int| 0 <= i < raw@.len() && raw@[i] == '/' && forall|j: int| i < j < raw@.len() ==> raw@[j] != '/';
                assert(p == pos as int) by {
                    if p < pos { assert(raw@[pos as int] != '/'); }
                    if p > pos { assert(raw@[p] != '/'); }
                }
            }
        }
    }
    None
}

/// The network settings a node starts with.
#[derive(Clone, Copy, Debug, PartialEq, Eq)]
pub struct NetworkSecurityConfig {
    pub enable_mdns: bool,
    pub require_encryption: bool,
    pub max_inbound_connections: usize,
    pub max_inbound_streams: usize,
    pub max_gossip_bytes: usize,
}

/// The network settings of a configuration.
pub fn network_security(cfg: &NetworkConfig) -> (res: NetworkSecurityConfig)
    ensures
        res.enable_mdns == cfg.enable_mdns,
        res.require_encryption == cfg.require_encryption,
        res.max_inbound_connections == cfg.max_inbound_connections,
        res.max_inbound_streams == cfg.max_inbound_streams,
        res.max_gossip_bytes == cfg.max_gossip_bytes,
{
    NetworkSecurityConfig {
        enable_mdns: cfg.enable_mdns,
        require_encryption: cfg.require_encryption,
        max_inbound_connections: cfg.max_inbound_connections,
        max_inbound_streams: cfg.max_inbound_streams,
        max_gossip_bytes: cfg.max_gossip_bytes,
    }
}

/// Development mode: local discovery on and RPC authentication off,
/// whatever the configuration says; nothing else changes.
pub fn apply_dev_mode(cfg: &mut OnvmConfig)
    ensures
        final(cfg).network.enable_mdns,
        !final(cfg).rpc_auth.enable,
        final(cfg).genesis == old(cfg).genesis,
        final(cfg).network.min_peers == old(cfg).network.min_peers,
        final(cfg).network.bootnodes == old(cfg).network.bootnodes,
        final(cfg).network.require_encryption == old(cfg).network.require_encryption,
        final(cfg).network.max_inbound_connections == old(cfg).network.max_inbound_connections,
        final(cfg).network.max_inbound_streams == old(cfg).network.max_inbound_streams,
        final(cfg).network.max_gossip_bytes == old(cfg).network.max_gossip_bytes,
        final(cfg).rpc_auth.project_id == old(cfg).rpc_auth.project_id,
        final(cfg).rpc_auth.secret_path == old(cfg).rpc_auth.secret_path,
        final(cfg).rpc_auth.allowed_methods == old(cfg).rpc_auth.allowed_methods,
{
    cfg.network.enable_mdns = true;
    cfg.rpc_auth.enable = false;
}

/// The bootnodes to dial: those given on the command line, or the
/// configured ones when none is given.
pub fn select_bootnodes(given: Vec<String>, cfg: &NetworkConfig) -> (res: Vec<String>)
    ensures
        given@.len() > 0 ==> res@ == given@,
        given@.len() == 0 ==> res@.map_values(|s: String| s@) == cfg.bootnodes@.map_values(|s: String| s@),
{
    if given.len() > 0 {
        return given;
    }
    let mut out: Vec<String> = Vec::new();
    let mut i: usize = 0;
    while i < cfg.bootnodes.len()
        invariant
            i <= cfg.bootnodes@.len(),
            out@.map_values(|s: String| s@) == cfg.bootnodes@.take(i as int).map_values(|s: String| s@),
        decreases cfg.bootnodes@.len() - i,
    {
        let s = cfg.bootnodes[i].clone();
        let ghost before = out@;
        out.push(s);
        assert(cfg.bootnodes@.take(i + 1) =~= cfg.bootnodes@.take(i as int).push(cfg.bootnodes@[i as int]));
        assert(out@.map_values(|s: String| s@) =~= before.map_values(|s: String| s@).push(s@));
        i = i + 1;
    }
    assert(cfg.bootnodes@.take(cfg.bootnodes@.len() as int) =~= cfg.bootnodes@);
    out
}

/// The settings that `init` may override on the command line.
#[derive(Clone, Debug, PartialEq, Eq)]
pub struct InitOverrides {
    pub enable_mdns: bool,
    pub min_peers: Option<usize>,
    pub max_gossip_bytes: Option<usize>,
    pub max_inbound_connections: Option<usize>,
    pub max_inbound_streams: Option<usize>,
    pub allow_insecure_transport: bool,
    /// Hexadecimal genesis state root; empty clears it.
    pub genesis_state_root: Option<String>,
}

impl InitOverrides {
    /// Whether anything is overridden.
    pub fn any(&self) -> (res: bool)
        ensures
            res == (self.enable_mdns || self.min_peers is Some || self.max_gossip_bytes is Some
                || self.max_inbound_connections is Some || self.max_inbound_streams is Some
                || self.allow_insecure_transport || self.genesis_state_root is Some),
    {
        self.enable_mdns || self.min_peers.is_some() || self.max_gossip_bytes.is_some()
            || self.max_inbound_connections.is_some() || self.max_inbound_streams.is_some()
            || self.allow_insecure_transport || self.genesis_state_root.is_some()
    }
}

/// What became of a genesis root override.
#[derive(Clone, Copy, Debug, PartialEq, Eq, Structural)]
pub enum GenesisOverride {
    /// None was given.
    Absent,
    /// The empty text cleared the root.
    Cleared,
    /// The root was set.
    Applied,
    /// Ignored: the hex is not 32 bytes.
    WrongLength,
    /// Ignored: not hexadecimal.
    InvalidHex,
}

/// The option an override gives, else the current value.
pub open spec fn spec_override(o: Option<usize>, cur: usize) -> usize {
    match o {
        Some(v) => v,
        None => cur,
    }
}

/// Apply `init`'s overrides to a configuration: RPC authentication is on,
/// with `secret_path` where no secret path is set; each given setting
/// replaces the configured one; insecure transport lifts the encryption
/// requirement; a genesis root in hex of 32 bytes sets the root, an empty
/// one clears it, and any other leaves it as it was.
pub fn apply_init_overrides(cfg: &mut OnvmConfig, o: &InitOverrides, secret_path: &str) -> (res: GenesisOverride)
    ensures
        final(cfg).rpc_auth.enable,
        old(cfg).rpc_auth.secret_path is None ==> (final(cfg).rpc_auth.secret_path matches Some(p) && p@ == secret_path@),
        old(cfg).rpc_auth.secret_path is Some ==> final(cfg).rpc_auth.secret_path == old(cfg).rpc_auth.secret_path,
        final(cfg).network.enable_mdns == (old(cfg).network.enable_mdns || o.enable_mdns),
        final(cfg).network.min_peers == spec_override(o.min_peers, old(cfg).network.min_peers),
        final(cfg).network.max_gossip_bytes == spec_override(o.max_gossip_bytes, old(cfg).network.max_gossip_bytes),
        final(cfg).network.max_inbound_connections == spec_override(o.max_inbound_connections, old(cfg).network.max_inbound_connections),
        final(cfg).network.max_inbound_streams == spec_override(o.max_inbound_streams, old(cfg).network.max_inbound_streams),
        final(cfg).network.require_encryption == (old(cfg).network.require_encryption && !o.allow_insecure_transport),
        final(cfg).network.bootnodes == old(cfg).network.bootnodes,
        final(cfg).rpc_auth.project_id == old(cfg).rpc_auth.project_id,
        final(cfg).rpc_auth.allowed_methods == old(cfg).rpc_auth.allowed_methods,
        match o.genesis_state_root {
            None => res == GenesisOverride::Absent && final(cfg).genesis == old(cfg).genesis,
            Some(t) => if t@.len() == 0 {
                res == GenesisOverride::Cleared && final(cfg).genesis.state_root is None
            } else {
                match spec_hex_decode(t@) {
                    None => res == GenesisOverride::InvalidHex && final(cfg).genesis == old(cfg).genesis,
                    Some(b) => if b.len() == 32 {
                        res == GenesisOverride::Applied && (final(cfg).genesis.state_root matches Some(r) && r@ == b)
                    } else {
                        res == GenesisOverride::WrongLength && final(cfg).genesis == old(cfg).genesis
                    },
                }
            },
        },
{
    if cfg.rpc_auth.secret_path.is_none() {
        cfg.rpc_auth.secret_path = Some(String::from_str(secret_path));
    }
    cfg.rpc_auth.enable = true;
    if o.enable_mdns {
        cfg.network.enable_mdns = true;
    }
    if let Some(v) = o.min_peers {
        cfg.network.min_peers = v;
    }
    if let Some(v) = o.max_gossip_bytes {
        cfg.network.max_gossip_bytes = v;
    }
    if let Some(v) = o.max_inbound_connections {
        cfg.network.max_inbound_connections = v;
    }
    if let Some(v) = o.max_inbound_streams {
        cfg.network.max_inbound_streams = v;
    }
    if o.allow_insecure_transport {
        cfg.network.require_encryption = false;
    }
    match &o.genesis_state_root {
        None => GenesisOverride::Absent,
        Some(text) => {
            if text.as_str().unicode_len() == 0 {
                cfg.genesis.state_root = None;
                GenesisOverride::Cleared
            } else {
                match hex_decode(text.as_str()) {
                    None => GenesisOverride::InvalidHex,
                    Some(bytes) => {
                        if bytes.len() == 32 {
                            let mut arr = [0u8; 32];
                            let mut i: usize = 0;
                            while i < 32
                                invariant
                                    i <= 32,
                                    bytes@.len() == 32,
                                    forall|j: int| 0 <= j < i ==> arr@[j] == bytes@[j],
                                decreases 32 - i,
                            {
                                arr[i] = bytes[i];
                                i = i + 1;
                            }
                            assert(arr@ =~= bytes@);
                            cfg.genesis.state_root = Some(arr);
                            GenesisOverride::Applied
                        } else {
                            GenesisOverride::WrongLength
                        }
                    },
                }
            }
        },
    }
}

} // verus!
