//! The persisted application state: routes, dynv6, security and mail
//! settings, plus the runtime dynv6 sync status.
use vstd::prelude::*;

use crate::config_gen::{join_path, path_join};
use crate::text::owned;

verus! {

/// Where a subdomain's traffic actually goes.
#[derive(Debug, Clone)]
pub enum RouteTarget {
    /// Serve a local folder through the daemon's own static file server,
    /// which rpxy reverse-proxies to.
    Static { path: String, hot_reload: bool },
    /// Reverse-proxy straight to a local TCP port.
    Port { port: u16 },
}

/// A subdomain route. `id` is the 128-bit value of the route's UUID.
#[derive(Debug, Clone)]
pub struct RouteEntry {
    pub id: u128,
    pub subdomain: String,
    pub target: RouteTarget,
    pub tls: bool,
    /// The local port of the built-in static file server, assigned when the
    /// target is `Static`.
    pub internal_port: Option<u16>,
}

#[derive(Debug, Clone)]
pub struct Dynv6Config {
    pub enabled: bool,
    pub token: Option<String>,
    /// Name of the network interface whose address is published.
    pub interface: Option<String>,
    /// Dynv6 hostnames/zones to keep updated.
    pub domains: Vec<String>,
}

#[derive(Debug, Clone, Copy, PartialEq, Eq)]
pub enum L4Protocol {
    Tcp,
    Udp,
}

/// A raw TCP/UDP forwarding rule. `id` is the 128-bit value of its UUID.
#[derive(Debug, Clone)]
pub struct L4Rule {
    pub id: u128,
    pub name: String,
    pub listen_port: u16,
    pub protocol: L4Protocol,
    pub upstream_port: u16,
}

#[derive(Debug, Clone)]
pub struct SecurityConfig {
    pub l4_rules: Vec<L4Rule>,
    pub blocked_ips: Vec<String>,
}

#[derive(Debug, Clone)]
pub struct MailAccount {
    pub address: String,
    pub display_name: String,
}

#[derive(Debug, Clone)]
pub struct MailConfig {
    pub domain: Option<String>,
    pub accounts: Vec<MailAccount>,
}

/// Everything that is written to disk.
#[derive(Debug, Clone)]
pub struct PersistedState {
    pub dynv6: Dynv6Config,
    pub routes: Vec<RouteEntry>,
    pub security: SecurityConfig,
    pub mail: MailConfig,
}

/// Runtime-only status: the last dynv6 sync result for one domain.
#[derive(Debug, Clone)]
pub struct Dynv6SyncStatus {
    pub domain: String,
    pub last_attempt: Option<String>,
    pub last_success: Option<String>,
    pub last_error: Option<String>,
}

/// A copy of an optional string.
pub fn copy_opt_string(s: &Option<String>) -> (c: Option<String>)
    ensures
        c == *s,
{
    match s {
        Some(t) => Some(t.clone()),
        None => None,
    }
}

/// A copy of a route target.
pub fn copy_target(t: &RouteTarget) -> (c: RouteTarget)
    ensures
        c == *t,
{
    match t {
        RouteTarget::Static { path, hot_reload } => RouteTarget::Static {
            path: path.clone(),
            hot_reload: *hot_reload,
        },
        RouteTarget::Port { port } => RouteTarget::Port { port: *port },
    }
}

/// A copy of a route.
pub fn copy_route(r: &RouteEntry) -> (c: RouteEntry)
    ensures
        c == *r,
{
    RouteEntry {
        id: r.id,
        subdomain: r.subdomain.clone(),
        target: copy_target(&r.target),
        tls: r.tls,
        internal_port: r.internal_port,
    }
}

/// The view of an optional string.
pub open spec fn opt_view(s: Option<String>) -> Option<Seq<char>> {
    match s {
        Some(t) => Some(t@),
        None => None,
    }
}

/// The directory the state lives in: the one the environment names, else
/// the platform's config directory for the app, else `.pocketserver`.
pub fn choose_state_dir(env_dir: Option<String>, project_dir: Option<String>) -> (d: String)
    ensures
        d@ == (match env_dir {
            Some(e) => e@,
            None => match project_dir {
                Some(p) => p@,
                None => ".pocketserver"@,
            },
        }),
{
    match env_dir {
        Some(e) => e,
        None => match project_dir {
            Some(p) => p,
            None => owned(".pocketserver"),
        },
    }
}

/// The state file inside the state directory.
pub fn state_file(config_dir: &str) -> (p: String)
    ensures
        p@ == join_path(config_dir@, "state.json"@),
{
    path_join(config_dir, "state.json")
}

} // verus!
