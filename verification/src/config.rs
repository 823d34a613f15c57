//! The read-only configuration snapshot the core queries, the proxy modes
//! of the HTTP engine, and the decisions that hang on them.
use vstd::prelude::*;
use vstd::string::*;

use crate::archive::ArchiveFormat;
use crate::text::{dec_str_of, u64_to_string};

verus! {

#[derive(Clone, Copy, Debug, PartialEq, Eq, Structural)]
pub enum ProxyMode {
    NoProxy,
    System,
    Custom,
}

/// The configuration fields the core reads.
#[derive(Clone, Debug)]
pub struct Config {
    pub download_dir: String,
    pub archive_format: ArchiveFormat,
    pub chapter_concurrency: u32,
    pub image_concurrency: u32,
    pub proxy_mode: ProxyMode,
    pub proxy_host: String,
    pub proxy_port: u16,
    pub access_token: String,
    pub uid: u64,
    pub cookie: String,
}

/// Whether saving a new configuration must rebuild the HTTP client: only
/// a change of proxy mode, host or port requires it.
pub fn needs_client_rebuild(old_cfg: &Config, new_cfg: &Config) -> (r: bool)
    ensures
        r == (old_cfg.proxy_mode != new_cfg.proxy_mode || old_cfg.proxy_host@
            != new_cfg.proxy_host@ || old_cfg.proxy_port != new_cfg.proxy_port),
{
    let mode_changed = match (old_cfg.proxy_mode, new_cfg.proxy_mode) {
        (ProxyMode::NoProxy, ProxyMode::NoProxy) => false,
        (ProxyMode::System, ProxyMode::System) => false,
        (ProxyMode::Custom, ProxyMode::Custom) => false,
        _ => true,
    };
    mode_changed || old_cfg.proxy_host != new_cfg.proxy_host || old_cfg.proxy_port
        != new_cfg.proxy_port
}

/// The proxy URL a custom proxy configuration produces.
pub open spec fn proxy_url_spec(host: Seq<char>, port: nat) -> Seq<char> {
    "http://"@ + host + ":"@ + dec_str_of(port)
}

pub fn proxy_url(host: &String, port: u16) -> (r: String)
    ensures
        r@ == proxy_url_spec(host@, port as nat),
{
    let mut s = String::from_str("http://");
    s.append(host.as_str());
    s.append(":");
    let p = u64_to_string(port as u64);
    s.append(p.as_str());
    s
}

/// What the HTTP engine does for a proxy configuration: disable proxying,
/// take the system default, or use an explicit URL.
pub enum ProxyPlan {
    NoProxy,
    System,
    Custom { url: String },
}

/// Decide the proxy plan from the configuration.
pub fn proxy_plan(mode: &ProxyMode, host: &String, port: u16) -> (r: ProxyPlan)
    ensures
        mode is NoProxy ==> r is NoProxy,
        mode is System ==> r is System,
        mode is Custom ==> (r matches ProxyPlan::Custom { url } && url@ == proxy_url_spec(
            host@,
            port as nat,
        )),
{
    match mode {
        ProxyMode::NoProxy => ProxyPlan::NoProxy,
        ProxyMode::System => ProxyPlan::System,
        ProxyMode::Custom => ProxyPlan::Custom { url: proxy_url(host, port) },
    }
}

} // verus!
