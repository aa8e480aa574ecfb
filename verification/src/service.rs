//! Service settings, the metadata endpoint, health and the worker's tick report.
use vstd::prelude::*;

use crate::number::{parse_unsigned, spec_parse_unsigned};
use crate::rollout::DeploymentReconcileReport;
use crate::store::{
    dependency_endpoint, spec_dependency_endpoint, ControlPlaneStoreConfig, WorkerRuntimeContext,
};
use crate::error::{bad_request, bad_result, ServiceResult};
use crate::text::{dec, is_blank, is_blank_seq, string_of, trim, trim_seq};

verus! {

/// The secret that session tokens are hashed and node agent tokens signed
/// with, and how long a console session lasts, in seconds.
#[derive(Clone, Debug)]
pub struct ControlPlaneAuthConfig {
    pub session_secret: String,
    pub session_ttl_secs: u64,
}

/// Settings of the control plane's services.
#[derive(Clone, Debug)]
pub struct ControlPlaneServiceConfig {
    pub service_name: String,
    pub api_version: String,
    pub ui_path: String,
    pub node_agent_path: String,
    /// Seconds of silence after which a node counts as offline.
    pub node_offline_threshold_secs: u64,
    pub auth: Option<ControlPlaneAuthConfig>,
}

/// The web service's authentication settings as the environment gives them.
#[derive(Clone, Debug)]
pub struct WebSettings {
    pub session_secret: String,
    pub session_ttl_secs: u64,
    pub node_offline_threshold_secs: u64,
}

pub open spec fn setting_text(value: Option<String>, default: Seq<char>) -> Seq<char> {
    match value {
        Some(v) => v@,
        None => default,
    }
}

/// The first refused setting's message, if any.
pub open spec fn web_settings_error(
    secret: Option<String>,
    ttl: Option<String>,
    threshold: Option<String>,
) -> Option<Seq<char>> {
    let ttl_value = spec_parse_unsigned(setting_text(ttl, "86400"@), u64::MAX as nat);
    if secret is None {
        Some("RGINX_CONTROL_AUTH_SESSION_SECRET is required"@)
    } else if is_blank_seq(secret->0@) {
        Some("RGINX_CONTROL_AUTH_SESSION_SECRET should not be empty"@)
    } else if ttl_value is None {
        Some("RGINX_CONTROL_AUTH_SESSION_TTL_SECS should be a valid u64"@)
    } else if ttl_value == Some(0nat) {
        Some("RGINX_CONTROL_AUTH_SESSION_TTL_SECS should be greater than zero"@)
    } else if spec_parse_unsigned(setting_text(threshold, "30"@), u64::MAX as nat) is None {
        Some("RGINX_CONTROL_NODE_OFFLINE_THRESHOLD_SECS should be a valid u64"@)
    } else {
        None
    }
}

fn parse_u64_setting(value: &Option<String>, default: u64) -> (r: Option<u64>)
    ensures
        match r {
            Some(n) => spec_parse_unsigned(setting_text(*value, dec(default as nat)), u64::MAX as nat)
                == Some(n as nat),
            None => spec_parse_unsigned(setting_text(*value, dec(default as nat)), u64::MAX as nat) is None,
        },
{
    match value {
        Some(v) => parse_unsigned(v.as_str(), u64::MAX),
        None => {
            proof {
                crate::number::lemma_parse_dec(default as nat, u64::MAX as nat);
            }
            Some(default)
        },
    }
}

/// The web service's authentication settings: the session secret is required
/// and must not be blank (it is kept trimmed), the session lifetime defaults
/// to a day and must be positive, the offline threshold defaults to 30 seconds.
pub fn web_settings(secret: &Option<String>, ttl: &Option<String>, threshold: &Option<String>) -> (r: Result<
    WebSettings,
    String,
>)
    ensures
        match r {
            Ok(s) => web_settings_error(*secret, *ttl, *threshold) is None && s.session_secret@ == trim_seq(
                secret->0@,
            ) && spec_parse_unsigned(setting_text(*ttl, "86400"@), u64::MAX as nat) == Some(
                s.session_ttl_secs as nat,
            ) && spec_parse_unsigned(setting_text(*threshold, "30"@), u64::MAX as nat) == Some(
                s.node_offline_threshold_secs as nat,
            ),
            Err(m) => web_settings_error(*secret, *ttl, *threshold) == Some(m@),
        },
{
    proof {
        reveal_strlit("86400");
        reveal_strlit("30");
        assert(dec(86400) =~= "86400"@) by {
            reveal_with_fuel(dec, 6);
        }
        assert(dec(30) =~= "30"@) by {
            reveal_with_fuel(dec, 3);
        }
    }
    let secret_text = match secret {
        Some(s) => s,
        None => {
            return Err(string_of("RGINX_CONTROL_AUTH_SESSION_SECRET is required"));
        },
    };
    if is_blank(secret_text.as_str()) {
        return Err(string_of("RGINX_CONTROL_AUTH_SESSION_SECRET should not be empty"));
    }
    let session_ttl_secs = match parse_u64_setting(ttl, 86400) {
        Some(n) => n,
        None => {
            return Err(string_of("RGINX_CONTROL_AUTH_SESSION_TTL_SECS should be a valid u64"));
        },
    };
    if session_ttl_secs == 0 {
        return Err(string_of("RGINX_CONTROL_AUTH_SESSION_TTL_SECS should be greater than zero"));
    }
    let node_offline_threshold_secs = match parse_u64_setting(threshold, 30) {
        Some(n) => n,
        None => {
            return Err(string_of("RGINX_CONTROL_NODE_OFFLINE_THRESHOLD_SECS should be a valid u64"));
        },
    };
    Ok(WebSettings { session_secret: trim(secret_text.as_str()), session_ttl_secs, node_offline_threshold_secs })
}

impl ControlPlaneServiceConfig {
    /// The default settings, for the given API version: service `rginx-web`,
    /// console at `/`, node agent `rginx-node-agent`, nodes offline after 30
    /// seconds of silence, no authentication.
    pub fn defaults(api_version: &str) -> (c: Self)
        ensures
            c.service_name@ == "rginx-web"@,
            c.api_version@ == api_version@,
            c.ui_path@ == "/"@,
            c.node_agent_path@ == "rginx-node-agent"@,
            c.node_offline_threshold_secs == 30,
            c.auth is None,
    {
        ControlPlaneServiceConfig {
            service_name: string_of("rginx-web"),
            api_version: string_of(api_version),
            ui_path: string_of("/"),
            node_agent_path: string_of("rginx-node-agent"),
            node_offline_threshold_secs: 30,
            auth: None,
        }
    }

    /// The web service's settings: the defaults, with authentication.
    pub fn for_web(api_version: &str, settings: &WebSettings) -> (c: Self)
        ensures
            c.service_name@ == "rginx-web"@,
            c.api_version@ == api_version@,
            c.ui_path@ == "/"@,
            c.node_agent_path@ == "rginx-node-agent"@,
            c.node_offline_threshold_secs == settings.node_offline_threshold_secs,
            c.auth matches Some(a) && a.session_secret@ == settings.session_secret@ && a.session_ttl_secs
                == settings.session_ttl_secs,
    {
        let mut c = Self::defaults(api_version);
        c.node_offline_threshold_secs = settings.node_offline_threshold_secs;
        c.auth = Some(
            ControlPlaneAuthConfig {
                session_secret: string_of(settings.session_secret.as_str()),
                session_ttl_secs: settings.session_ttl_secs,
            },
        );
        c
    }
}

/// What the metadata endpoint reports.
#[derive(Clone, Debug)]
pub struct ControlPlaneMeta {
    pub service_name: String,
    pub api_version: String,
    pub api_listen_addr: String,
    pub ui_path: String,
    pub node_agent_path: String,
}

/// Answers the metadata endpoint from the service settings.
#[derive(Clone, Debug)]
pub struct MetaService {
    config: ControlPlaneServiceConfig,
}

impl MetaService {
    pub closed spec fn spec_config(&self) -> ControlPlaneServiceConfig {
        self.config
    }

    pub fn new(config: ControlPlaneServiceConfig) -> (m: Self)
        ensures
            m.spec_config() == config,
    {
        MetaService { config }
    }

    /// The settings' names and paths, with the address the API listens on.
    pub fn get_meta(&self, api_listen_addr: String) -> (m: ControlPlaneMeta)
        ensures
            m.service_name@ == self.spec_config().service_name@,
            m.api_version@ == self.spec_config().api_version@,
            m.api_listen_addr == api_listen_addr,
            m.ui_path@ == self.spec_config().ui_path@,
            m.node_agent_path@ == self.spec_config().node_agent_path@,
    {
        ControlPlaneMeta {
            service_name: string_of(self.config.service_name.as_str()),
            api_version: string_of(self.config.api_version.as_str()),
            api_listen_addr,
            ui_path: string_of(self.config.ui_path.as_str()),
            node_agent_path: string_of(self.config.node_agent_path.as_str()),
        }
    }
}

/// The health endpoint's answer.
#[derive(Clone, Debug)]
pub struct ServiceHealth {
    pub service: String,
    pub status: String,
}

/// The service is healthy once the database answered its readiness check.
pub fn service_health(service_name: &str) -> (h: ServiceHealth)
    ensures
        h.service@ == service_name@,
        h.status@ == "ok"@,
{
    ServiceHealth { service: string_of(service_name), status: string_of("ok") }
}

/// A listing of audit entries asks for a positive number of them, if any.
pub fn validate_audit_limit(limit: Option<i64>) -> (r: ServiceResult<()>)
    ensures
        r is Err <==> (limit is Some && limit->0 <= 0),
        r is Err ==> bad_result(r, "limit should be greater than zero"@),
{
    match limit {
        Some(n) => if n <= 0 {
            Err(bad_request("limit should be greater than zero"))
        } else {
            Ok(())
        },
        None => Ok(()),
    }
}

/// What the worker reports after one tick.
#[derive(Clone, Debug)]
pub struct WorkerTickReport {
    pub service_name: String,
    pub known_nodes: usize,
    pub active_deployments: usize,
    pub offline_reconciled_nodes: usize,
    pub dispatched_targets: u32,
    pub finalized_deployments: u32,
    pub rollback_deployments_created: u32,
    pub postgres_endpoint: String,
    pub dragonfly_endpoint: String,
}

pub open spec fn endpoint_or(found: Option<Seq<char>>, fallback: Seq<char>) -> Seq<char> {
    match found {
        Some(e) => e,
        None => fallback,
    }
}

/// The tick report: the store's counts and the reconcile tallies, with each
/// backend's endpoint as the store reported it, or as configured when the
/// store did not report it.
pub fn build_tick_report(
    service_name: &str,
    context: &WorkerRuntimeContext,
    offline_reconciled_nodes: usize,
    deployments: &DeploymentReconcileReport,
    store_config: &ControlPlaneStoreConfig,
) -> (r: WorkerTickReport)
    ensures
        r.service_name@ == service_name@,
        r.known_nodes == context.known_nodes,
        r.active_deployments == context.active_deployments,
        r.offline_reconciled_nodes == offline_reconciled_nodes,
        r.dispatched_targets == deployments.dispatched_targets,
        r.finalized_deployments == deployments.finalized_deployments,
        r.rollback_deployments_created == deployments.rollback_deployments_created,
        r.postgres_endpoint@ == endpoint_or(
            spec_dependency_endpoint(context.dependencies@, "postgres"@),
            store_config.db_host@ + seq![':'] + dec(store_config.db_port as nat) + seq!['/']
                + store_config.db_name@,
        ),
        r.dragonfly_endpoint@ == endpoint_or(
            spec_dependency_endpoint(context.dependencies@, "dragonfly"@),
            store_config.dragonfly_host@ + seq![':'] + dec(store_config.dragonfly_port as nat),
        ),
{
    let postgres_endpoint = match dependency_endpoint(&context.dependencies, "postgres") {
        Some(e) => e,
        None => store_config.postgres_endpoint(),
    };
    let dragonfly_endpoint = match dependency_endpoint(&context.dependencies, "dragonfly") {
        Some(e) => e,
        None => store_config.dragonfly_endpoint(),
    };
    WorkerTickReport {
        service_name: string_of(service_name),
        known_nodes: context.known_nodes,
        active_deployments: context.active_deployments,
        offline_reconciled_nodes,
        dispatched_targets: deployments.dispatched_targets,
        finalized_deployments: deployments.finalized_deployments,
        rollback_deployments_created: deployments.rollback_deployments_created,
        postgres_endpoint,
        dragonfly_endpoint,
    }
}

} // verus!
