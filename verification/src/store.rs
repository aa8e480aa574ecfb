//! Store configuration, the Dragonfly keyspace and the conversions of counts
//! that the store reads from Postgres.
use vstd::prelude::*;

use vstd::string::StrSliceExecFns;

use crate::number::{parse_unsigned, spec_parse_unsigned};
use crate::text::{dec, is_blank, is_blank_seq, push_char, push_str, push_u64, string_of, str_eq, trim, trim_seq};

verus! {

// ---------------------------------------------------------------- keyspace

/// Key names in the Dragonfly cache, all under one prefix.
#[derive(Debug)]
pub struct DragonflyKeyspace {
    prefix: String,
}

impl Clone for DragonflyKeyspace {
    /// A copy of the keyspace keeps its prefix.
    fn clone(&self) -> (r: Self)
        ensures
            r.spec_prefix() == self.spec_prefix(),
    {
        DragonflyKeyspace { prefix: string_of(self.prefix.as_str()) }
    }
}

/// A key: the prefix, the key kind's segment and the identifier.
pub open spec fn namespaced(prefix: Seq<char>, segment: Seq<char>, id: Seq<char>) -> Seq<char> {
    prefix + segment + id
}

impl DragonflyKeyspace {
    pub closed spec fn spec_prefix(&self) -> Seq<char> {
        self.prefix@
    }

    pub fn new(prefix: &str) -> (k: Self)
        ensures
            k.spec_prefix() == prefix@,
    {
        DragonflyKeyspace { prefix: string_of(prefix) }
    }

    pub fn prefix(&self) -> (p: &str)
        ensures
            p@ == self.spec_prefix(),
    {
        self.prefix.as_str()
    }

    fn key(&self, segment: &str, id: &str) -> (k: String)
        ensures
            k@ == namespaced(self.spec_prefix(), segment@, id@),
    {
        let mut k = string_of(self.prefix.as_str());
        push_str(&mut k, segment);
        push_str(&mut k, id);
        k
    }

    pub fn session_key(&self, session_id: &str) -> (k: String)
        ensures
            k@ == namespaced(self.spec_prefix(), ":session:"@, session_id@),
    {
        self.key(":session:", session_id)
    }

    pub fn deployment_queue_key(&self, cluster_id: &str) -> (k: String)
        ensures
            k@ == namespaced(self.spec_prefix(), ":deployment:queue:"@, cluster_id@),
    {
        self.key(":deployment:queue:", cluster_id)
    }

    pub fn deployment_lock_key(&self, cluster_id: &str) -> (k: String)
        ensures
            k@ == namespaced(self.spec_prefix(), ":deployment:lock:"@, cluster_id@),
    {
        self.key(":deployment:lock:", cluster_id)
    }

    pub fn node_presence_key(&self, node_id: &str) -> (k: String)
        ensures
            k@ == namespaced(self.spec_prefix(), ":node:presence:"@, node_id@),
    {
        self.key(":node:presence:", node_id)
    }

    pub fn event_stream_key(&self, stream_name: &str) -> (k: String)
        ensures
            k@ == namespaced(self.spec_prefix(), ":event:stream:"@, stream_name@),
    {
        self.key(":event:stream:", stream_name)
    }

    pub fn sse_fanout_key(&self, channel: &str) -> (k: String)
        ensures
            k@ == namespaced(self.spec_prefix(), ":sse:fanout:"@, channel@),
    {
        self.key(":sse:fanout:", channel)
    }
}

/// Every key starts with the keyspace's prefix, and within one kind of key,
/// different identifiers give different keys.
pub proof fn lemma_keys_prefixed_and_distinct(prefix: Seq<char>, segment: Seq<char>, a: Seq<char>, b: Seq<char>)
    ensures
        namespaced(prefix, segment, a).take(prefix.len() as int) == prefix,
        namespaced(prefix, segment, a) == namespaced(prefix, segment, b) ==> a == b,
{
    assert(namespaced(prefix, segment, a).take(prefix.len() as int) =~= prefix);
    if namespaced(prefix, segment, a) == namespaced(prefix, segment, b) {
        let n: int = (prefix.len() + segment.len()) as int;
        assert(namespaced(prefix, segment, a).skip(n) =~= a);
        assert(namespaced(prefix, segment, b).skip(n) =~= b);
    }
}

// ---------------------------------------------------------------- configuration

/// The administrator account that bootstrap ensures.
#[derive(Clone, Debug)]
pub struct BootstrapAdminConfig {
    pub username: String,
    pub password: String,
    pub display_name: String,
}

/// Where the store finds Postgres and Dragonfly, and the bootstrap account.
#[derive(Clone, Debug)]
pub struct ControlPlaneStoreConfig {
    pub db_host: String,
    pub db_port: u16,
    pub db_user: String,
    pub db_password: String,
    pub db_name: String,
    pub db_max_connections: u32,
    pub dragonfly_host: String,
    pub dragonfly_port: u16,
    pub dragonfly_key_prefix: String,
    pub bootstrap_admin: BootstrapAdminConfig,
}

/// The store's settings as the environment gives them, each `None` when unset.
#[derive(Clone, Debug)]
pub struct StoreEnvironment {
    pub db_host: Option<String>,
    pub db_port: Option<String>,
    pub db_user: Option<String>,
    pub db_password: Option<String>,
    pub db_name: Option<String>,
    pub db_max_connections: Option<String>,
    pub dragonfly_host: Option<String>,
    pub dragonfly_port: Option<String>,
    pub dragonfly_key_prefix: Option<String>,
    pub bootstrap_admin_username: Option<String>,
    pub bootstrap_admin_password: Option<String>,
    pub bootstrap_admin_display_name: Option<String>,
}

pub open spec fn or_default(value: Option<String>, default: Seq<char>) -> Seq<char> {
    match value {
        Some(v) => v@,
        None => default,
    }
}

impl Default for ControlPlaneStoreConfig {
    fn default() -> (c: Self)
        ensures
            c.db_host@ == "127.0.0.1"@,
            c.db_port == 5432,
            c.db_user@ == "rginx"@,
            c.db_password@ == "rginx"@,
            c.db_name@ == "rginx_control"@,
            c.db_max_connections == 10,
            c.dragonfly_host@ == "127.0.0.1"@,
            c.dragonfly_port == 6379,
            c.dragonfly_key_prefix@ == "rginx:control"@,
            c.bootstrap_admin.username@ == "admin"@,
            c.bootstrap_admin.password@ == "admin"@,
            c.bootstrap_admin.display_name@ == "Local Admin"@,
    {
        ControlPlaneStoreConfig {
            db_host: string_of("127.0.0.1"),
            db_port: 5432,
            db_user: string_of("rginx"),
            db_password: string_of("rginx"),
            db_name: string_of("rginx_control"),
            db_max_connections: 10,
            dragonfly_host: string_of("127.0.0.1"),
            dragonfly_port: 6379,
            dragonfly_key_prefix: string_of("rginx:control"),
            bootstrap_admin: BootstrapAdminConfig {
                username: string_of("admin"),
                password: string_of("admin"),
                display_name: string_of("Local Admin"),
            },
        }
    }
}

/// A number setting: its text, or the default rendered in decimal.
pub open spec fn number_setting(value: Option<String>, default: nat, max: nat) -> Option<nat> {
    match value {
        Some(v) => spec_parse_unsigned(v@, max),
        None => Some(default),
    }
}

fn parse_setting(value: &Option<String>, default: u64, max: u64) -> (r: Option<u64>)
    requires
        default <= max,
    ensures
        match r {
            Some(n) => number_setting(*value, default as nat, max as nat) == Some(n as nat),
            None => number_setting(*value, default as nat, max as nat) is None,
        },
{
    match value {
        Some(v) => parse_unsigned(v.as_str(), max),
        None => Some(default),
    }
}

fn setting_or(value: &Option<String>, default: &str) -> (s: String)
    ensures
        s@ == or_default(*value, default@),
{
    match value {
        Some(v) => string_of(v.as_str()),
        None => string_of(default),
    }
}

/// What `from_env` yields: the first failing check's message, or the settings
/// with the defaults filled in and the account names trimmed.
pub open spec fn store_config_error(env: StoreEnvironment) -> Option<Seq<char>> {
    let username = or_default(env.bootstrap_admin_username, "admin"@);
    let password = or_default(env.bootstrap_admin_password, "admin"@);
    let display_name = or_default(env.bootstrap_admin_display_name, "Local Admin"@);
    if is_blank_seq(username) {
        Some("RGINX_CONTROL_BOOTSTRAP_ADMIN_USERNAME should not be empty"@)
    } else if password.len() == 0 {
        Some("RGINX_CONTROL_BOOTSTRAP_ADMIN_PASSWORD should not be empty"@)
    } else if is_blank_seq(display_name) {
        Some("RGINX_CONTROL_BOOTSTRAP_ADMIN_DISPLAY_NAME should not be empty"@)
    } else if number_setting(env.db_port, 5432, 0xffff) is None {
        Some("RGINX_CONTROL_DB_PORT should be a valid u16"@)
    } else if number_setting(env.db_max_connections, 10, 0xffff_ffff) is None {
        Some("RGINX_CONTROL_DB_MAX_CONNECTIONS should be a valid u32"@)
    } else if number_setting(env.dragonfly_port, 6379, 0xffff) is None {
        Some("RGINX_CONTROL_DRAGONFLY_PORT should be a valid u16"@)
    } else {
        None
    }
}

pub open spec fn store_config_matches(env: StoreEnvironment, c: ControlPlaneStoreConfig) -> bool {
    &&& c.db_host@ == or_default(env.db_host, "127.0.0.1"@)
    &&& number_setting(env.db_port, 5432, 0xffff) == Some(c.db_port as nat)
    &&& c.db_user@ == or_default(env.db_user, "rginx"@)
    &&& c.db_password@ == or_default(env.db_password, "rginx"@)
    &&& c.db_name@ == or_default(env.db_name, "rginx_control"@)
    &&& number_setting(env.db_max_connections, 10, 0xffff_ffff) == Some(c.db_max_connections as nat)
    &&& c.dragonfly_host@ == or_default(env.dragonfly_host, "127.0.0.1"@)
    &&& number_setting(env.dragonfly_port, 6379, 0xffff) == Some(c.dragonfly_port as nat)
    &&& c.dragonfly_key_prefix@ == or_default(env.dragonfly_key_prefix, "rginx:control"@)
    &&& c.bootstrap_admin.username@ == trim_seq(or_default(env.bootstrap_admin_username, "admin"@))
    &&& c.bootstrap_admin.password@ == or_default(env.bootstrap_admin_password, "admin"@)
    &&& c.bootstrap_admin.display_name@ == trim_seq(
        or_default(env.bootstrap_admin_display_name, "Local Admin"@),
    )
}

impl ControlPlaneStoreConfig {
    /// The store settings from the environment's values, with the defaults for
    /// what is unset; an error names the first setting that is refused.
    pub fn from_environment(env: &StoreEnvironment) -> (r: Result<Self, String>)
        ensures
            match r {
                Ok(c) => store_config_error(*env) is None && store_config_matches(*env, c),
                Err(m) => store_config_error(*env) == Some(m@),
            },
    {
        let username = setting_or(&env.bootstrap_admin_username, "admin");
        let password = setting_or(&env.bootstrap_admin_password, "admin");
        let display_name = setting_or(&env.bootstrap_admin_display_name, "Local Admin");
        if is_blank(username.as_str()) {
            return Err(string_of("RGINX_CONTROL_BOOTSTRAP_ADMIN_USERNAME should not be empty"));
        }
        if password.as_str().unicode_len() == 0 {
            return Err(string_of("RGINX_CONTROL_BOOTSTRAP_ADMIN_PASSWORD should not be empty"));
        }
        if is_blank(display_name.as_str()) {
            return Err(string_of("RGINX_CONTROL_BOOTSTRAP_ADMIN_DISPLAY_NAME should not be empty"));
        }
        let db_port = match parse_setting(&env.db_port, 5432, 0xffff) {
            Some(p) => p as u16,
            None => {
                return Err(string_of("RGINX_CONTROL_DB_PORT should be a valid u16"));
            },
        };
        let db_max_connections = match parse_setting(&env.db_max_connections, 10, 0xffff_ffff) {
            Some(p) => p as u32,
            None => {
                return Err(string_of("RGINX_CONTROL_DB_MAX_CONNECTIONS should be a valid u32"));
            },
        };
        let dragonfly_port = match parse_setting(&env.dragonfly_port, 6379, 0xffff) {
            Some(p) => p as u16,
            None => {
                return Err(string_of("RGINX_CONTROL_DRAGONFLY_PORT should be a valid u16"));
            },
        };
        Ok(ControlPlaneStoreConfig {
            db_host: setting_or(&env.db_host, "127.0.0.1"),
            db_port,
            db_user: setting_or(&env.db_user, "rginx"),
            db_password: setting_or(&env.db_password, "rginx"),
            db_name: setting_or(&env.db_name, "rginx_control"),
            db_max_connections,
            dragonfly_host: setting_or(&env.dragonfly_host, "127.0.0.1"),
            dragonfly_port,
            dragonfly_key_prefix: setting_or(&env.dragonfly_key_prefix, "rginx:control"),
            bootstrap_admin: BootstrapAdminConfig {
                username: trim(username.as_str()),
                password,
                display_name: trim(display_name.as_str()),
            },
        })
    }

    /// `host:port/name` of the Postgres database.
    pub fn postgres_endpoint(&self) -> (e: String)
        ensures
            e@ == self.db_host@ + seq![':'] + dec(self.db_port as nat) + seq!['/'] + self.db_name@,
    {
        let mut e = string_of(self.db_host.as_str());
        push_char(&mut e, ':');
        push_u64(&mut e, self.db_port as u64);
        push_char(&mut e, '/');
        push_str(&mut e, self.db_name.as_str());
        e
    }

    /// `host:port` of the Dragonfly cache.
    pub fn dragonfly_endpoint(&self) -> (e: String)
        ensures
            e@ == self.dragonfly_host@ + seq![':'] + dec(self.dragonfly_port as nat),
    {
        let mut e = string_of(self.dragonfly_host.as_str());
        push_char(&mut e, ':');
        push_u64(&mut e, self.dragonfly_port as u64);
        e
    }
}

// ---------------------------------------------------------------- runtime context

/// A backing service and how it answered the last readiness check.
#[derive(Clone, Debug)]
pub struct BackendDependencyStatus {
    pub name: String,
    pub endpoint: String,
    pub status: String,
}

/// What the worker reads from the store on each tick.
#[derive(Clone, Debug)]
pub struct WorkerRuntimeContext {
    pub known_nodes: usize,
    pub active_deployments: usize,
    pub active_dns_deployments: usize,
    pub dependencies: Vec<BackendDependencyStatus>,
}

/// Filters of an audit log listing.
#[derive(Clone, Debug)]
pub struct AuditLogListFilters {
    pub cluster_id: Option<String>,
    pub actor_id: Option<String>,
    pub action: Option<String>,
    pub resource_type: Option<String>,
    pub resource_id: Option<String>,
    pub result: Option<String>,
    pub limit: Option<i64>,
}

/// The endpoint of the first dependency with the given name.
pub open spec fn spec_dependency_endpoint(deps: Seq<BackendDependencyStatus>, name: Seq<char>) -> Option<Seq<char>>
    decreases deps.len(),
{
    if deps.len() == 0 {
        None
    } else if deps[0].name@ == name {
        Some(deps[0].endpoint@)
    } else {
        spec_dependency_endpoint(deps.drop_first(), name)
    }
}

/// The endpoint of the first dependency with the given name.
pub fn dependency_endpoint(deps: &Vec<BackendDependencyStatus>, name: &str) -> (r: Option<String>)
    ensures
        match r {
            Some(e) => spec_dependency_endpoint(deps@, name@) == Some(e@),
            None => spec_dependency_endpoint(deps@, name@) is None,
        },
{
    let mut i: usize = 0;
    assert(deps@.skip(0) =~= deps@);
    while i < deps.len()
        invariant
            i <= deps@.len(),
            spec_dependency_endpoint(deps@, name@) == spec_dependency_endpoint(deps@.skip(i as int), name@),
        decreases deps@.len() - i,
    {
        assert(deps@.skip(i as int)[0] == deps@[i as int]);
        assert(deps@.skip(i as int).drop_first() =~= deps@.skip(i + 1));
        if str_eq(deps[i].name.as_str(), name) {
            return Some(string_of(deps[i].endpoint.as_str()));
        }
        i = i + 1;
    }
    None
}

// ---------------------------------------------------------------- conversions

/// `{field} should fit into {ty}`.
pub open spec fn fit_message(field: Seq<char>, ty: Seq<char>) -> Seq<char> {
    field + " should fit into "@ + ty
}

fn fit_error(field: &str, ty: &str) -> (m: String)
    ensures
        m@ == fit_message(field@, ty@),
{
    let mut m = string_of(field);
    push_str(&mut m, " should fit into ");
    push_str(&mut m, ty);
    m
}

/// A count read as `bigint`, as a `u32`.
pub fn count_to_u32(value: i64, field: &str) -> (r: Result<u32, String>)
    ensures
        match r {
            Ok(v) => 0 <= value <= u32::MAX && v == value,
            Err(m) => !(0 <= value <= u32::MAX) && m@ == fit_message(field@, "u32"@),
        },
{
    if 0 <= value && value <= 0xffff_ffff {
        Ok(value as u32)
    } else {
        Err(fit_error(field, "u32"))
    }
}

/// A count read as `bigint`, as a `u64`.
pub fn count_to_u64(value: i64, field: &str) -> (r: Result<u64, String>)
    ensures
        match r {
            Ok(v) => 0 <= value && v == value,
            Err(m) => value < 0 && m@ == fit_message(field@, "u64"@),
        },
{
    if 0 <= value {
        Ok(value as u64)
    } else {
        Err(fit_error(field, "u64"))
    }
}

/// A count read as `bigint`, as a `usize`.
pub fn count_to_usize(value: i64, field: &str) -> (r: Result<usize, String>)
    ensures
        match r {
            Ok(v) => 0 <= value <= usize::MAX && v == value,
            Err(m) => !(0 <= value <= usize::MAX) && m@ == fit_message(field@, "usize"@),
        },
{
    if 0 <= value && (value as u64) <= (usize::MAX as u64) {
        Ok(value as usize)
    } else {
        Err(fit_error(field, "usize"))
    }
}

/// An optional `u64` to be stored as `bigint`.
pub fn option_u64_to_i64(value: Option<u64>, field: &str) -> (r: Result<Option<i64>, String>)
    ensures
        match value {
            None => r == Ok::<Option<i64>, String>(None),
            Some(v) => match r {
                Ok(Some(w)) => v <= i64::MAX && w == v,
                Ok(None) => false,
                Err(m) => v > i64::MAX && m@ == fit_message(field@, "i64"@),
            },
        },
{
    match value {
        None => Ok(None),
        Some(v) => if v <= 0x7fff_ffff_ffff_ffff {
            Ok(Some(v as i64))
        } else {
            Err(fit_error(field, "i64"))
        },
    }
}

/// An optional `u32` to be stored as `integer`.
pub fn option_u32_to_i32(value: Option<u32>, field: &str) -> (r: Result<Option<i32>, String>)
    ensures
        match value {
            None => r == Ok::<Option<i32>, String>(None),
            Some(v) => match r {
                Ok(Some(w)) => v <= i32::MAX && w == v,
                Ok(None) => false,
                Err(m) => v > i32::MAX && m@ == fit_message(field@, "i32"@),
            },
        },
{
    match value {
        None => Ok(None),
        Some(v) => if v <= 0x7fff_ffff {
            Ok(Some(v as i32))
        } else {
            Err(fit_error(field, "i32"))
        },
    }
}

/// An optional `bigint` read back as a `u64`.
pub fn option_i64_to_u64(value: Option<i64>, field: &str) -> (r: Result<Option<u64>, String>)
    ensures
        match value {
            None => r == Ok::<Option<u64>, String>(None),
            Some(v) => match r {
                Ok(Some(w)) => v >= 0 && w == v,
                Ok(None) => false,
                Err(m) => v < 0 && m@ == fit_message(field@, "u64"@),
            },
        },
{
    match value {
        None => Ok(None),
        Some(v) => if v >= 0 {
            Ok(Some(v as u64))
        } else {
            Err(fit_error(field, "u64"))
        },
    }
}

/// An optional `integer` read back as a `u32`.
pub fn option_i32_to_u32(value: Option<i32>, field: &str) -> (r: Result<Option<u32>, String>)
    ensures
        match value {
            None => r == Ok::<Option<u32>, String>(None),
            Some(v) => match r {
                Ok(Some(w)) => v >= 0 && w == v,
                Ok(None) => false,
                Err(m) => v < 0 && m@ == fit_message(field@, "u32"@),
            },
        },
{
    match value {
        None => Ok(None),
        Some(v) => if v >= 0 {
            Ok(Some(v as u32))
        } else {
            Err(fit_error(field, "u32"))
        },
    }
}

/// A timestamp in milliseconds since the epoch, which must not be negative.
pub fn unix_time_ms(millis: i64) -> (r: Result<u64, String>)
    ensures
        match r {
            Ok(v) => millis >= 0 && v == millis,
            Err(m) => millis < 0 && m@ == "timestamp should fit into unix milliseconds"@,
        },
{
    if millis >= 0 {
        Ok(millis as u64)
    } else {
        Err(string_of("timestamp should fit into unix milliseconds"))
    }
}

} // verus!
