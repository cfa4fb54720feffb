//! Command-line options of the streaming processing unit, and how they
//! resolve into its configuration.
use vstd::prelude::*;
use vstd::string::*;

verus! {

/// Default bound on bytes moved between leader and follower.
pub const SPU_PEER_MAX_BYTES: u32 = 1_000_000;

/// Storage limits of the unit's log.
#[derive(Debug, Clone)]
pub struct LogConfig {
    pub base_dir: String,
    pub size: String,
    pub index_max_bytes: u32,
    pub index_max_interval_bytes: u32,
}

/// Memory limits of the transform engine.
#[derive(Debug, Clone)]
pub struct SmartEngineConfig {
    pub store_max_memory: usize,
}

/// Resolved configuration of one streaming processing unit.
#[derive(Debug, Clone)]
pub struct SpuConfig {
    pub id: i32,
    pub public_endpoint: String,
    pub private_endpoint: String,
    pub sc_endpoint: String,
    pub log: LogConfig,
    pub peer_max_bytes: u32,
    pub smart_engine: SmartEngineConfig,
}

/// TLS options.
#[derive(Debug, Clone, Default)]
pub struct TlsConfig {
    pub tls: bool,
    pub server_cert: Option<String>,
    pub server_key: Option<String>,
    pub enable_client_cert: bool,
    pub ca_cert: Option<String>,
    pub bind_non_tls_public: Option<String>,
}

/// Command-line options of the unit.
#[derive(Debug, Clone, Default)]
pub struct SpuOpt {
    pub id: Option<i32>,
    pub bind_public: Option<String>,
    pub bind_private: Option<String>,
    pub sc_addr: Option<String>,
    pub log_base_dir: Option<String>,
    pub log_size: Option<String>,
    pub index_max_bytes: Option<u32>,
    pub index_max_interval_bytes: Option<u32>,
    pub peer_max_bytes: u32,
    pub smart_engine_max_memory: Option<usize>,
    pub tls: TlsConfig,
}

/// The environment variables that can name the unit's identifier.
#[derive(Debug, Clone, Default)]
pub struct SpuIdEnv {
    /// `FLV_SPU_ID`
    pub spu_id: Option<String>,
    /// `SPU_INDEX`, of the form `<name>-<index>`
    pub spu_index: Option<String>,
    /// `SPU_MIN`, added to the index
    pub spu_min: Option<String>,
}

/// Why the options could not be resolved.
#[derive(Debug, Clone, PartialEq, Eq)]
pub enum SpuCliError {
    InvalidSpuId,
    InvalidSpuIndexFormat,
    InvalidSpuIndex,
    InvalidSpuMin,
    SpuIdOverflow,
    SpuIdNotFound,
    MissingNonTlsPublicAddr,
    MissingServerCert,
    MissingServerKey,
    MissingCaCert,
}

pub open spec fn is_digit(c: char) -> bool {
    '0' <= c && c <= '9'
}

/// Value of a run of decimal digits.
pub open spec fn digits_value(s: Seq<char>) -> int
    decreases s.len(),
{
    if s.len() == 0 {
        0
    } else {
        digits_value(s.drop_last()) * 10 + (s.last() as int - '0' as int)
    }
}

pub open spec fn all_digits(d: Seq<char>) -> bool {
    forall|i: int| 0 <= i < d.len() ==> is_digit(#[trigger] d[i])
}

/// `s` without its leading sign, if it has one.
pub open spec fn unsigned_part(s: Seq<char>) -> Seq<char> {
    if s.len() > 0 && (s[0] == '-' || s[0] == '+') { s.drop_first() } else { s }
}

/// What `str::parse::<i32>` yields: an optional sign, then one or more
/// decimal digits, whose value fits in an `i32`.
pub open spec fn parse_i32_spec(s: Seq<char>) -> Option<int> {
    let d = unsigned_part(s);
    let v = if s.len() > 0 && s[0] == '-' { -digits_value(d) } else { digits_value(d) };
    if d.len() == 0 || !all_digits(d) {
        None
    } else if i32::MIN <= v && v <= i32::MAX {
        Some(v)
    } else {
        None
    }
}

proof fn lemma_digits_value_nonneg(t: Seq<char>)
    requires
        forall|i: int| 0 <= i < t.len() ==> is_digit(#[trigger] t[i]),
    ensures
        digits_value(t) >= 0,
    decreases t.len(),
{
    if t.len() > 0 {
        lemma_digits_value_nonneg(t.drop_last());
    }
}

/// The value of a run of digits is at least that of any of its prefixes.
proof fn lemma_digits_value_prefix(t: Seq<char>, k: int)
    requires
        0 <= k <= t.len(),
        forall|i: int| 0 <= i < t.len() ==> is_digit(#[trigger] t[i]),
    ensures
        digits_value(t.subrange(0, k)) <= digits_value(t),
    decreases t.len(),
{
    if k < t.len() {
        let init = t.drop_last();
        assert(init.subrange(0, k) =~= t.subrange(0, k));
        lemma_digits_value_prefix(init, k);
        lemma_digits_value_nonneg(init);
    } else {
        assert(t.subrange(0, k) =~= t);
    }
}

/// Reads an `i32` written in decimal, as `str::parse::<i32>` does: an
/// optional `+` or `-`, then one or more ASCII digits, in range.
pub fn parse_i32(s: &str) -> (r: Option<i32>)
    ensures
        match parse_i32_spec(s@) {
            Some(v) => r == Some(v as i32),
            None => r is None,
        },
{
    let n = s.unicode_len();
    if n == 0 {
        return None;
    }
    let c0 = s.get_char(0);
    let neg = c0 == '-';
    let start: usize = if c0 == '-' || c0 == '+' { 1 } else { 0 };
    let ghost d = if start == 1 { s@.drop_first() } else { s@ };
    assert(d =~= s@.subrange(start as int, n as int));
    assert(d == unsigned_part(s@));
    assert(neg == (s@.len() > 0 && s@[0] == '-'));
    if start == n {
        return None;
    }
    let mut v: i64 = 0;
    let mut i: usize = start;
    while i < n
        invariant
            start <= i <= n == s@.len(),
            d == s@.subrange(start as int, n as int),
            d == unsigned_part(s@),
            neg == (s@.len() > 0 && s@[0] == '-'),
            forall|k: int| 0 <= k < i - start ==> is_digit(#[trigger] d[k]),
            v == digits_value(d.subrange(0, i - start)),
            0 <= v <= 2147483648,
        decreases n - i,
    {
        let c = s.get_char(i);
        assert(d[i - start] == s@[i as int]);
        if !('0' <= c && c <= '9') {
            assert(!is_digit(d[i - start]));
            assert(!all_digits(d));
            assert(parse_i32_spec(s@) is None);
            return None;
        }
        let dig = (c as u32 - '0' as u32) as i64;
        assert(d.subrange(0, i + 1 - start).drop_last() =~= d.subrange(0, i - start));
        assert(d.subrange(0, i + 1 - start).last() == c);
        v = v * 10 + dig;
        i = i + 1;
        assert(v == digits_value(d.subrange(0, i - start)));
        if v > 2147483648 {
            proof {
                if all_digits(d) {
                    lemma_digits_value_prefix(d, i - start);
                    assert(digits_value(d) > 2147483648);
                }
                assert(parse_i32_spec(s@) is None);
            }
            return None;
        }
    }
    assert(d.subrange(0, d.len() as int) =~= d);
    if neg {
        Some((-v) as i32)
    } else if v > 2147483647 {
        None
    } else {
        Some(v as i32)
    }
}

/// The text after the last `-` of `s`, if `s` holds a `-`.
pub open spec fn last_dash_token(s: Seq<char>) -> Option<Seq<char>>
    decreases s.len(),
{
    if s.len() == 0 {
        None
    } else if s.last() == '-' {
        Some(Seq::empty())
    } else {
        match last_dash_token(s.drop_last()) {
            Some(t) => Some(t.push(s.last())),
            None => None,
        }
    }
}

/// The identifier that the environment names, as `find_spu_id_from_env` computes it.
pub open spec fn spu_id_from_env_spec(env: SpuIdEnv) -> Result<int, SpuCliError> {
    match env.spu_id {
        Some(s) => match parse_i32_spec(s@) {
            Some(v) => Ok(v),
            None => Err(SpuCliError::InvalidSpuId),
        },
        None => match env.spu_index {
            None => Err(SpuCliError::SpuIdNotFound),
            Some(name) => match last_dash_token(name@) {
                None => Err(SpuCliError::InvalidSpuIndexFormat),
                Some(tok) => match parse_i32_spec(tok) {
                    None => Err(SpuCliError::InvalidSpuIndex),
                    Some(id) => {
                        let min = match env.spu_min {
                            Some(m) => parse_i32_spec(m@),
                            None => Some(0int),
                        };
                        match min {
                            None => Err(SpuCliError::InvalidSpuMin),
                            Some(base) => if i32::MIN <= id + base && id + base <= i32::MAX {
                                Ok(id + base)
                            } else {
                                Err(SpuCliError::SpuIdOverflow)
                            },
                        }
                    },
                },
            },
        },
    }
}

/// Index of the last `-` in `s`, with the text after it.
fn find_last_dash(s: &str) -> (r: Option<usize>)
    ensures
        match r {
            Some(i) => i < s@.len() && last_dash_token(s@) == Some(s@.subrange(i + 1, s@.len() as int)),
            None => last_dash_token(s@) is None,
        },
{
    let n = s.unicode_len();
    let mut i: usize = n;
    assert(s@.subrange(0, n as int) == s@);
    proof {
        match last_dash_token(s@) {
            Some(t) => {
                assert(t + s@.subrange(n as int, n as int) == t);
            },
            None => {},
        }
    }
    while i > 0
        invariant
            i <= n == s@.len(),
            forall|k: int| i <= k < n ==> s@[k] != '-',
            last_dash_token(s@) == match last_dash_token(s@.subrange(0, i as int)) {
                Some(t) => Some(t + s@.subrange(i as int, n as int)),
                None => None::<Seq<char>>,
            },
        decreases i,
    {
        let c = s.get_char(i - 1);
        let ghost pre = s@.subrange(0, i as int);
        assert(pre.drop_last() == s@.subrange(0, i - 1));
        if c == '-' {
            assert(last_dash_token(pre) == Some(Seq::<char>::empty()));
            assert(Seq::<char>::empty() + s@.subrange(i as int, n as int) == s@.subrange(i as int, n as int));
            return Some(i - 1);
        }
        assert(s@.subrange(i - 1, n as int) == seq![c] + s@.subrange(i as int, n as int));
        proof {
            match last_dash_token(s@.subrange(0, i - 1)) {
                Some(t) => {
                    assert(t.push(c) + s@.subrange(i as int, n as int) == t + s@.subrange(i - 1, n as int));
                },
                None => {},
            }
        }
        i = i - 1;
    }
    assert(s@.subrange(0, 0) == Seq::<char>::empty());
    None
}

/// Finds the unit's identifier in the environment: `FLV_SPU_ID` if set,
/// else the index at the end of `SPU_INDEX` plus `SPU_MIN` (zero if unset).
pub fn find_spu_id_from_env(env: &SpuIdEnv) -> (r: Result<i32, SpuCliError>)
    ensures
        match spu_id_from_env_spec(*env) {
            Ok(v) => r == Ok::<i32, SpuCliError>(v as i32),
            Err(e) => r == Err::<i32, SpuCliError>(e),
        },
{
    match &env.spu_id {
        Some(s) => match parse_i32(s.as_str()) {
            Some(v) => Ok(v),
            None => Err(SpuCliError::InvalidSpuId),
        },
        None => match &env.spu_index {
            None => Err(SpuCliError::SpuIdNotFound),
            Some(name) => {
                let ns = name.as_str();
                match find_last_dash(ns) {
                    None => Err(SpuCliError::InvalidSpuIndexFormat),
                    Some(i) => {
                        let n = ns.unicode_len();
                        let tok = ns.substring_char(i + 1, n);
                        match parse_i32(tok) {
                            None => Err(SpuCliError::InvalidSpuIndex),
                            Some(id) => {
                                let min = match &env.spu_min {
                                    Some(m) => parse_i32(m.as_str()),
                                    None => Some(0i32),
                                };
                                match min {
                                    None => Err(SpuCliError::InvalidSpuMin),
                                    Some(base) => id.checked_add(base).ok_or(SpuCliError::SpuIdOverflow),
                                }
                            },
                        }
                    },
                }
            },
        },
    }
}

pub open spec fn default_public_endpoint() -> Seq<char> {
    "0.0.0.0:9005"@
}

pub open spec fn default_private_endpoint() -> Seq<char> {
    "0.0.0.0:9006"@
}

pub open spec fn default_sc_endpoint() -> Seq<char> {
    "localhost:9004"@
}

pub open spec fn default_log_base_dir() -> Seq<char> {
    "/tmp/fluvio"@
}

pub open spec fn default_log_size() -> Seq<char> {
    "1Gi"@
}

pub const DEFAULT_INDEX_MAX_BYTES: u32 = 10485760;

pub const DEFAULT_INDEX_MAX_INTERVAL_BYTES: u32 = 4096;

pub const DEFAULT_STORE_MAX_MEMORY: usize = 1073741824;

impl SpuConfig {
    /// The configuration of a unit with identifier `id` and every other
    /// setting at its default.
    pub fn with_id(id: i32) -> (c: SpuConfig)
        ensures
            c.id == id,
            c.public_endpoint@ == default_public_endpoint(),
            c.private_endpoint@ == default_private_endpoint(),
            c.sc_endpoint@ == default_sc_endpoint(),
            c.log.base_dir@ == default_log_base_dir(),
            c.log.size@ == default_log_size(),
            c.log.index_max_bytes == DEFAULT_INDEX_MAX_BYTES,
            c.log.index_max_interval_bytes == DEFAULT_INDEX_MAX_INTERVAL_BYTES,
            c.peer_max_bytes == SPU_PEER_MAX_BYTES,
            c.smart_engine.store_max_memory == DEFAULT_STORE_MAX_MEMORY,
    {
        SpuConfig {
            id,
            public_endpoint: String::from_str("0.0.0.0:9005"),
            private_endpoint: String::from_str("0.0.0.0:9006"),
            sc_endpoint: String::from_str("localhost:9004"),
            log: LogConfig {
                base_dir: String::from_str("/tmp/fluvio"),
                size: String::from_str("1Gi"),
                index_max_bytes: DEFAULT_INDEX_MAX_BYTES,
                index_max_interval_bytes: DEFAULT_INDEX_MAX_INTERVAL_BYTES,
            },
            peer_max_bytes: SPU_PEER_MAX_BYTES,
            smart_engine: SmartEngineConfig { store_max_memory: DEFAULT_STORE_MAX_MEMORY },
        }
    }
}

/// The value an optional override gives, or the default.
pub open spec fn or_default(o: Option<String>, d: Seq<char>) -> Seq<char> {
    match o {
        Some(v) => v@,
        None => d,
    }
}

/// The identifier the options resolve to: the `id` option, else the environment.
pub open spec fn resolved_id(opt: SpuOpt, env: SpuIdEnv) -> Result<int, SpuCliError> {
    match opt.id {
        Some(i) => Ok(i as int),
        None => spu_id_from_env_spec(env),
    }
}

impl SpuOpt {
    /// Resolves the options into a configuration, and, with TLS on, the
    /// address the TLS proxy listens on (the public address before the
    /// non-TLS one replaces it).
    pub fn as_spu_config(self, env: &SpuIdEnv) -> (r: Result<(SpuConfig, Option<String>), SpuCliError>)
        ensures
            match resolved_id(self, *env) {
                Err(e) => r == Err::<(SpuConfig, Option<String>), SpuCliError>(e),
                Ok(id) => if self.tls.tls && self.tls.bind_non_tls_public is None {
                    r == Err::<(SpuConfig, Option<String>), SpuCliError>(SpuCliError::MissingNonTlsPublicAddr)
                } else {
                    r is Ok && {
                        let (c, tls_addr) = r->Ok_0;
                        let public = or_default(self.bind_public, default_public_endpoint());
                        &&& c.id == id
                        &&& c.sc_endpoint@ == or_default(self.sc_addr, default_sc_endpoint())
                        &&& c.log.base_dir@ == or_default(self.log_base_dir, default_log_base_dir())
                        &&& c.log.size@ == or_default(self.log_size, default_log_size())
                        &&& c.log.index_max_bytes == match self.index_max_bytes {
                            Some(v) => v,
                            None => DEFAULT_INDEX_MAX_BYTES,
                        }
                        &&& c.log.index_max_interval_bytes == match self.index_max_interval_bytes {
                            Some(v) => v,
                            None => DEFAULT_INDEX_MAX_INTERVAL_BYTES,
                        }
                        &&& c.private_endpoint@ == or_default(self.bind_private, default_private_endpoint())
                        &&& c.peer_max_bytes == self.peer_max_bytes
                        &&& c.smart_engine.store_max_memory == match self.smart_engine_max_memory {
                            Some(v) => v,
                            None => DEFAULT_STORE_MAX_MEMORY,
                        }
                        &&& if self.tls.tls {
                            &&& tls_addr is Some && tls_addr->Some_0@ == public
                            &&& c.public_endpoint@ == self.tls.bind_non_tls_public->Some_0@
                        } else {
                            &&& tls_addr is None
                            &&& c.public_endpoint@ == public
                        }
                    }
                },
            },
    {
        let id = match self.id {
            Some(id) => id,
            None => match find_spu_id_from_env(env) {
                Ok(id) => id,
                Err(e) => return Err(e),
            },
        };
        let mut config = SpuConfig::with_id(id);
        if let Some(sc_endpoint) = self.sc_addr {
            config.sc_endpoint = sc_endpoint;
        }
        if let Some(log_base) = self.log_base_dir {
            config.log.base_dir = log_base;
        }
        if let Some(log_size) = self.log_size {
            config.log.size = log_size;
        }
        if let Some(index_max_bytes) = self.index_max_bytes {
            config.log.index_max_bytes = index_max_bytes;
        }
        if let Some(index_max_interval_bytes) = self.index_max_interval_bytes {
            config.log.index_max_interval_bytes = index_max_interval_bytes;
        }
        if let Some(public_addr) = self.bind_public {
            config.public_endpoint = public_addr;
        }
        let mut tls_port: Option<String> = None;
        if self.tls.tls {
            match self.tls.bind_non_tls_public {
                Some(non_tls) => {
                    let proxy_addr = config.public_endpoint;
                    tls_port = Some(proxy_addr);
                    config.public_endpoint = non_tls;
                },
                None => return Err(SpuCliError::MissingNonTlsPublicAddr),
            }
        }
        if let Some(private_addr) = self.bind_private {
            config.private_endpoint = private_addr;
        }
        config.peer_max_bytes = self.peer_max_bytes;
        if let Some(smart_engine_max_memory) = self.smart_engine_max_memory {
            config.smart_engine.store_max_memory = smart_engine_max_memory;
        }
        Ok((config, tls_port))
    }
}

/// The files a TLS acceptor is built from; the CA certificate is there
/// exactly when client certificates are checked.
#[derive(Debug, Clone, PartialEq, Eq)]
pub struct TlsPaths {
    pub server_cert: String,
    pub server_key: String,
    pub ca_cert: Option<String>,
}

impl TlsConfig {
    /// The files to build the TLS acceptor from: `None` with TLS off, else
    /// the server certificate and key, and the CA certificate where client
    /// certificates are checked; each one missing is an error, in that order.
    pub fn acceptor_paths(&self) -> (r: Result<Option<TlsPaths>, SpuCliError>)
        ensures
            !self.tls ==> r == Ok::<Option<TlsPaths>, SpuCliError>(None),
            self.tls && self.server_cert is None ==> r == Err::<Option<TlsPaths>, SpuCliError>(SpuCliError::MissingServerCert),
            self.tls && self.server_cert is Some && self.server_key is None
                ==> r == Err::<Option<TlsPaths>, SpuCliError>(SpuCliError::MissingServerKey),
            self.tls && self.server_cert is Some && self.server_key is Some && self.enable_client_cert && self.ca_cert is None
                ==> r == Err::<Option<TlsPaths>, SpuCliError>(SpuCliError::MissingCaCert),
            self.tls && self.server_cert is Some && self.server_key is Some && (self.enable_client_cert ==> self.ca_cert is Some)
                ==> (r matches Ok(Some(p)) && p.server_cert@ == self.server_cert->Some_0@
                && p.server_key@ == self.server_key->Some_0@
                && (self.enable_client_cert ==> (p.ca_cert matches Some(c) && c@ == self.ca_cert->Some_0@))
                && (!self.enable_client_cert ==> p.ca_cert is None)),
    {
        if !self.tls {
            return Ok(None);
        }
        let server_cert = match &self.server_cert {
            Some(c) => c.clone(),
            None => return Err(SpuCliError::MissingServerCert),
        };
        let server_key = match &self.server_key {
            Some(k) => k.clone(),
            None => return Err(SpuCliError::MissingServerKey),
        };
        let ca_cert = if self.enable_client_cert {
            match &self.ca_cert {
                Some(c) => Some(c.clone()),
                None => return Err(SpuCliError::MissingCaCert),
            }
        } else {
            None
        };
        Ok(Some(TlsPaths { server_cert, server_key, ca_cert }))
    }
}

} // verus!
