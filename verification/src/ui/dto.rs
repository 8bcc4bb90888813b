//! The shapes the UI exchanges with the daemon's HTTP API.
use vstd::prelude::*;

verus! {

#[derive(Debug, Clone)]
pub struct InterfaceDto {
    pub name: String,
    pub mac: Option<String>,
    pub ipv4: Vec<String>,
    pub ipv6: Vec<String>,
}

#[derive(Debug, Clone)]
pub enum RouteTargetDto {
    Static { path: String, hot_reload: bool },
    Port { port: u16 },
}

#[derive(Debug, Clone)]
pub struct RouteDto {
    pub id: String,
    pub subdomain: String,
    pub target: RouteTargetDto,
    pub tls: bool,
    pub internal_port: Option<u16>,
}

#[derive(Debug, Clone)]
pub struct NewRouteDto {
    pub subdomain: String,
    pub target: RouteTargetDto,
    pub tls: bool,
}

#[derive(Debug, Clone)]
pub struct Dynv6ConfigDto {
    pub enabled: bool,
    pub token: Option<String>,
    pub interface: Option<String>,
    pub domains: Vec<String>,
}

#[derive(Debug, Clone)]
pub struct Dynv6StatusDto {
    pub domain: String,
    pub last_attempt: Option<String>,
    pub last_success: Option<String>,
    pub last_error: Option<String>,
}

#[derive(Debug, Clone)]
pub struct L4RuleDto {
    pub id: String,
    pub name: String,
    pub protocol: String,
    pub listen_port: u16,
    pub upstream_port: u16,
}

#[derive(Debug, Clone)]
pub struct SecurityConfigDto {
    pub l4_rules: Vec<L4RuleDto>,
    pub blocked_ips: Vec<String>,
}

#[derive(Debug, Clone)]
pub struct MailAccountDto {
    pub address: String,
    pub display_name: String,
}

#[derive(Debug, Clone)]
pub struct MailConfigDto {
    pub domain: Option<String>,
    pub accounts: Vec<MailAccountDto>,
}

} // verus!
